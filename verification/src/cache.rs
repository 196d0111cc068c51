//! What is known of a script's build cache, and the commands that show it
//! or clear it away.

use vstd::prelude::*;
use crate::builder::{
    docker_image_name, docker_image_name_of, docker_volume_name, docker_volume_name_of,
    BuildError, EnvVar, EnvVarView, Invocation, InvocationView, env_views,
};
use crate::cfg::{BuildSpec, BuildSpecView};
use crate::opt::{CacheCommand, CacheCommandView};
use crate::text::{appended, str_eq, views};

verus! {

/// What is known of a containerized script's cache.
#[derive(Debug, PartialEq, Eq)]
pub struct DockerInfo {
    /// The name of the image the script is built in.
    pub image: String,
    /// The name of the volume that holds the script's sources.
    pub src_volume: String,
    /// The size of the cache directory, as text for the user.
    pub dir_size: String,
}

/// The mathematical value of a [`DockerInfo`].
pub struct DockerInfoView {
    pub image: Seq<char>,
    pub src_volume: Seq<char>,
    pub dir_size: Seq<char>,
}

impl View for DockerInfo {
    type V = DockerInfoView;

    open spec fn view(&self) -> DockerInfoView {
        DockerInfoView { image: self.image@, src_volume: self.src_volume@, dir_size: self.dir_size@ }
    }
}

/// What is known of a script's cache.
#[derive(Debug, PartialEq, Eq)]
pub struct CacheInfo {
    /// The cache directory.
    pub cache_path: String,
    /// What is known beyond that where the recipe has a container part.
    pub docker: Option<DockerInfo>,
}

/// The mathematical value of a [`CacheInfo`].
pub struct CacheInfoView {
    pub cache_path: Seq<char>,
    pub docker: Option<DockerInfoView>,
}

impl View for CacheInfo {
    type V = CacheInfoView;

    open spec fn view(&self) -> CacheInfoView {
        CacheInfoView {
            cache_path: self.cache_path@,
            docker: match self.docker {
                Some(d) => Some(d@),
                None => None,
            },
        }
    }
}

/// One named item of cache information.
#[derive(Debug, PartialEq, Eq)]
pub struct InfoItem {
    pub name: String,
    pub value: String,
}

/// The mathematical value of an [`InfoItem`].
pub struct InfoItemView {
    pub name: Seq<char>,
    pub value: Seq<char>,
}

impl View for InfoItem {
    type V = InfoItemView;

    open spec fn view(&self) -> InfoItemView {
        InfoItemView { name: self.name@, value: self.value@ }
    }
}

/// The views of a sequence of items, element by element.
pub open spec fn item_views(items: Seq<InfoItem>) -> Seq<InfoItemView> {
    Seq::new(items.len(), |i: int| items[i]@)
}

/// The cache information of a script, given its cache directory and the
/// size of that directory: the image and volume names are those of the
/// cache directory, and they and the size are part of the information only
/// where the recipe has a container part.
pub open spec fn cache_info_of(cfg: BuildSpecView, cache: Seq<char>, dir_size: Seq<char>) -> Result<
    CacheInfoView,
    BuildError,
> {
    if cfg.docker_build is Some {
        match (docker_image_name_of(cache), docker_volume_name_of(cache)) {
            (Some(image), Some(src_volume)) => Ok(
                CacheInfoView {
                    cache_path: cache,
                    docker: Some(DockerInfoView { image, src_volume, dir_size }),
                },
            ),
            _ => Err(BuildError::InvalidCachePath),
        }
    } else {
        Ok(CacheInfoView { cache_path: cache, docker: None })
    }
}

/// The items of the information, ordered by name.
pub open spec fn info_items(info: CacheInfoView) -> Seq<InfoItemView> {
    seq![InfoItemView { name: "cache_path"@, value: info.cache_path }] + (match info.docker {
        Some(d) => seq![
            InfoItemView { name: "dir_size"@, value: d.dir_size },
            InfoItemView { name: "docker_image"@, value: d.image },
            InfoItemView { name: "docker_src_volume"@, value: d.src_volume },
        ],
        None => Seq::empty(),
    })
}

/// The names of the items, in their order.
pub open spec fn item_names(info: CacheInfoView) -> Seq<Seq<char>> {
    Seq::new(info_items(info).len(), |i: int| info_items(info)[i].name)
}

/// The value of the item with the given name, if there is one.
pub open spec fn item_named(info: CacheInfoView, name: Seq<char>) -> Option<Seq<char>> {
    if name == "cache_path"@ {
        Some(info.cache_path)
    } else {
        match info.docker {
            Some(d) => if name == "dir_size"@ {
                Some(d.dir_size)
            } else if name == "docker_image"@ {
                Some(d.image)
            } else if name == "docker_src_volume"@ {
                Some(d.src_volume)
            } else {
                None
            },
            None => None,
        }
    }
}

/// The text filled up with spaces at its end to the given width; a text
/// that is as wide or wider stays as it is.
pub open spec fn padded(text: Seq<char>, width: nat) -> Seq<char> {
    if text.len() >= width {
        text
    } else {
        text + Seq::new((width - text.len()) as nat, |i: int| ' ')
    }
}

/// The line that shows one item: its name and a colon, filled up to twenty
/// characters, a space, and its value.
pub open spec fn info_line(item: InfoItemView) -> Seq<char> {
    padded(item.name + seq![':'], 20) + seq![' '] + item.value
}

/// The lines that show all the items.
pub open spec fn info_lines(info: CacheInfoView) -> Seq<Seq<char>> {
    Seq::new(info_items(info).len(), |i: int| info_line(info_items(info)[i]))
}

/// `item_named` finds exactly the items of `info_items`, by their names.
pub proof fn lemma_item_named(info: CacheInfoView, name: Seq<char>)
    ensures
        match item_named(info, name) {
            Some(value) => exists|i: int|
                0 <= i < info_items(info).len() && #[trigger] info_items(info)[i] == (InfoItemView {
                    name,
                    value,
                }),
            None => forall|i: int|
                0 <= i < info_items(info).len() ==> (#[trigger] info_items(info)[i]).name != name,
        },
{
    let items = info_items(info);
    reveal_strlit("cache_path");
    reveal_strlit("dir_size");
    reveal_strlit("docker_image");
    reveal_strlit("docker_src_volume");
    if name == "cache_path"@ {
        assert(items[0] == InfoItemView { name, value: info.cache_path });
    } else {
        match info.docker {
            Some(d) => {
                if name == "dir_size"@ {
                    assert(items[1] == InfoItemView { name, value: d.dir_size });
                } else if name == "docker_image"@ {
                    assert(items[2] == InfoItemView { name, value: d.image });
                } else if name == "docker_src_volume"@ {
                    assert(items[3] == InfoItemView { name, value: d.src_volume });
                } else {
                }
            },
            None => {},
        }
    }
}

/// The view of cache information, or the error in its place.
pub open spec fn info_view(r: Result<CacheInfo, BuildError>) -> Result<CacheInfoView, BuildError> {
    match r {
        Ok(info) => Ok(info@),
        Err(e) => Err(e),
    }
}

/// Collects what is known of a script's cache. `dir_size` is the size of
/// the cache directory as text; it is used only where the recipe has a
/// container part.
pub fn collect_info(cfg: &BuildSpec, script_cache_path: &str, dir_size: &str) -> (r: Result<
    CacheInfo,
    BuildError,
>)
    ensures
        info_view(r) == cache_info_of(cfg@, script_cache_path@, dir_size@),
{
    if cfg.docker_build.is_some() {
        let image = match docker_image_name(script_cache_path) {
            Ok(image) => image,
            Err(e) => {
                return Err(e);
            },
        };
        let src_volume = match docker_volume_name(script_cache_path) {
            Ok(volume) => volume,
            Err(e) => {
                return Err(e);
            },
        };
        Ok(
            CacheInfo {
                cache_path: String::from_str(script_cache_path),
                docker: Some(DockerInfo { image, src_volume, dir_size: String::from_str(dir_size) }),
            },
        )
    } else {
        Ok(CacheInfo { cache_path: String::from_str(script_cache_path), docker: None })
    }
}

fn push_item(items: &mut Vec<InfoItem>, name: &str, value: &str)
    ensures
        item_views(final(items)@) == item_views(old(items)@).push(
            InfoItemView { name: name@, value: value@ },
        ),
{
    items.push(InfoItem { name: String::from_str(name), value: String::from_str(value) });
    assert(item_views(items@) =~= item_views(old(items)@).push(
        InfoItemView { name: name@, value: value@ },
    ));
}

impl CacheInfo {
    /// The items of the information, ordered by name.
    pub fn items(&self) -> (items: Vec<InfoItem>)
        ensures
            item_views(items@) == info_items(self@),
    {
        let mut items: Vec<InfoItem> = Vec::new();
        push_item(&mut items, "cache_path", self.cache_path.as_str());
        match &self.docker {
            Some(d) => {
                push_item(&mut items, "dir_size", d.dir_size.as_str());
                push_item(&mut items, "docker_image", d.image.as_str());
                push_item(&mut items, "docker_src_volume", d.src_volume.as_str());
            },
            None => {},
        }
        assert(item_views(items@) =~= info_items(self@));
        items
    }
}

/// An item was asked for by a name that no item has.
#[derive(Debug, PartialEq, Eq)]
pub struct UnknownItem {
    /// The name that was asked for.
    pub name: String,
    /// The names that there are.
    pub available: Vec<String>,
}

fn print_item(name: &str, value: &str) -> (line: String)
    ensures
        line@ == info_line(InfoItemView { name: name@, value: value@ }),
{
    proof {
        reveal_strlit(":");
        reveal_strlit(" ");
        assert(":"@ =~= seq![':']);
        assert(" "@ =~= seq![' ']);
    }
    let mut line = appended(name, ":");
    let ghost label = line@;
    let width: usize = line.as_str().unicode_len();
    let mut i: usize = width;
    while i < 20
        invariant
            width == label.len(),
            width <= i,
            i <= 20 || i == width,
            line@ == label + Seq::new((i - width) as nat, |k: int| ' '),
            " "@ == seq![' '],
        decreases 20 - i,
    {
        let ghost before = line@;
        line.append(" ");
        i += 1;
        assert(line@ =~= label + Seq::new((i - width) as nat, |k: int| ' '));
    }
    assert(line@ =~= padded(label, 20));
    line.append(" ");
    line.append(value);
    line
}

fn unknown_item(name: &str, items: &Vec<InfoItem>) -> (e: UnknownItem)
    ensures
        e.name@ == name@,
        views(e.available@) == Seq::new(items.len() as nat, |i: int| items[i]@.name),
{
    let mut available: Vec<String> = Vec::new();
    let mut i: usize = 0;
    while i < items.len()
        invariant
            i <= items.len(),
            views(available@) == Seq::new(i as nat, |k: int| items[k]@.name),
        decreases items.len() - i,
    {
        let ghost before = views(available@);
        available.push(items[i].name.clone());
        assert(views(available@) =~= before.push(items[i as int].name@));
        i += 1;
        assert(views(available@) =~= Seq::new(i as nat, |k: int| items[k]@.name));
    }
    UnknownItem { name: String::from_str(name), available }
}

/// The value of the item called `name`, or the names that there are if
/// none is called so.
pub fn command_get(name: &str, info: &CacheInfo) -> (r: Result<String, UnknownItem>)
    ensures
        match item_named(info@, name@) {
            Some(value) => r matches Ok(found) && found@ == value,
            None => r matches Err(e) && e.name@ == name@ && views(e.available@) == item_names(info@),
        },
{
    let items = info.items();
    let mut i: usize = 0;
    proof {
        lemma_item_named(info@, name@);
    }
    while i < items.len()
        invariant
            i <= items.len(),
            item_views(items@) == info_items(info@),
            forall|k: int| 0 <= k < i ==> (#[trigger] info_items(info@)[k]).name != name@,
        decreases items.len() - i,
    {
        assert(info_items(info@)[i as int] == items[i as int]@);
        if str_eq(items[i].name.as_str(), name) {
            proof {
                lemma_names_differ(info@);
                lemma_item_named(info@, name@);
                let found = info_items(info@)[i as int];
                match item_named(info@, name@) {
                    Some(value) => {
                        let w = choose|w: int|
                            0 <= w < info_items(info@).len() && #[trigger] info_items(info@)[w] == (
                            InfoItemView { name: name@, value });
                        assert(w == i);
                    },
                    None => {},
                }
            }
            return Ok(items[i].value.clone());
        }
        i += 1;
    }
    let e = unknown_item(name, &items);
    proof {
        assert(views(e.available@) =~= item_names(info@)) by {
            assert forall|k: int| 0 <= k < items.len() implies items[k]@.name == info_items(
                info@,
            )[k].name by {
                assert(info_items(info@)[k] == items[k]@);
            }
        }
        match item_named(info@, name@) {
            Some(value) => {
                let w = choose|w: int|
                    0 <= w < info_items(info@).len() && #[trigger] info_items(info@)[w] == (InfoItemView {
                        name: name@,
                        value,
                    });
                assert(info_items(info@)[w].name == name@);
            },
            None => {},
        }
    }
    Err(e)
}

/// No two items have the same name.
pub proof fn lemma_names_differ(info: CacheInfoView)
    ensures
        forall|i: int, j: int|
            0 <= i < j < info_items(info).len() ==> (#[trigger] info_items(info)[i]).name != (
            #[trigger] info_items(info)[j]).name,
{
    reveal_strlit("cache_path");
    reveal_strlit("dir_size");
    reveal_strlit("docker_image");
    reveal_strlit("docker_src_volume");
    let items = info_items(info);
    assert("cache_path"@[0] != "dir_size"@[0]);
    assert("cache_path"@[0] != "docker_image"@[0]);
    assert("cache_path"@[0] != "docker_src_volume"@[0]);
    assert("dir_size"@[1] != "docker_image"@[1]);
    assert("dir_size"@[1] != "docker_src_volume"@[1]);
    assert("docker_image"@[7] != "docker_src_volume"@[7]);
}

/// The lines that show all that is known of the cache, one per item.
pub fn command_info(info: &CacheInfo) -> (lines: Vec<String>)
    ensures
        views(lines@) == info_lines(info@),
{
    let items = info.items();
    let mut lines: Vec<String> = Vec::new();
    let mut i: usize = 0;
    while i < items.len()
        invariant
            i <= items.len(),
            item_views(items@) == info_items(info@),
            views(lines@) == info_lines(info@).take(i as int),
        decreases items.len() - i,
    {
        let ghost before = views(lines@);
        assert(info_items(info@)[i as int] == items[i as int]@);
        let line = print_item(items[i].name.as_str(), items[i].value.as_str());
        lines.push(line);
        assert(views(lines@) =~= before.push(line@));
        assert(info_lines(info@).take(i + 1) =~= info_lines(info@).take(i as int).push(line@));
        i += 1;
    }
    assert(info_lines(info@).take(i as int) =~= info_lines(info@));
    lines
}

/// What clearing a cache away takes.
#[derive(Debug, PartialEq, Eq)]
pub struct CleanPlan {
    /// The directory to remove with all that is in it.
    pub remove_dir: String,
    /// The commands to run after that, each whether or not the ones before
    /// it succeeded.
    pub commands: Vec<Invocation>,
}

/// The mathematical value of a [`CleanPlan`].
pub struct CleanPlanView {
    pub remove_dir: Seq<char>,
    pub commands: Seq<InvocationView>,
}

/// The views of a sequence of commands, element by element.
pub open spec fn invocation_views(commands: Seq<Invocation>) -> Seq<InvocationView> {
    Seq::new(commands.len(), |i: int| commands[i]@)
}

impl View for CleanPlan {
    type V = CleanPlanView;

    open spec fn view(&self) -> CleanPlanView {
        CleanPlanView { remove_dir: self.remove_dir@, commands: invocation_views(self.commands@) }
    }
}

/// Removing a thing of the given kind from the container engine.
pub open spec fn docker_rm_command(kind: Seq<char>, name: Seq<char>) -> InvocationView {
    InvocationView {
        program: "docker"@,
        args: seq![kind, "rm"@, name],
        envs: Seq::empty(),
        current_dir: "/"@,
    }
}

/// What clearing the cache away takes: removing the cache directory, and
/// for a containerized script removing its image and its volume.
pub open spec fn clean_plan_of(info: CacheInfoView) -> CleanPlanView {
    CleanPlanView {
        remove_dir: info.cache_path,
        commands: match info.docker {
            Some(d) => seq![
                docker_rm_command("image"@, d.image),
                docker_rm_command("volume"@, d.src_volume),
            ],
            None => Seq::empty(),
        },
    }
}

fn docker_rm(kind: &str, name: &str) -> (r: Invocation)
    ensures
        r@ == docker_rm_command(kind@, name@),
{
    let mut args: Vec<String> = Vec::new();
    args.push(String::from_str(kind));
    args.push(String::from_str("rm"));
    args.push(String::from_str(name));
    assert(views(args@) =~= seq![kind@, "rm"@, name@]);
    let envs: Vec<EnvVar> = Vec::new();
    assert(env_views(envs@) =~= Seq::<EnvVarView>::empty());
    Invocation { program: String::from_str("docker"), args, envs, current_dir: String::from_str("/") }
}

/// Plans the clearing of a script's cache.
pub fn command_clean(info: &CacheInfo) -> (plan: CleanPlan)
    ensures
        plan@ == clean_plan_of(info@),
{
    let mut commands: Vec<Invocation> = Vec::new();
    match &info.docker {
        Some(d) => {
            let image = docker_rm("image", d.image.as_str());
            let volume = docker_rm("volume", d.src_volume.as_str());
            commands.push(image);
            commands.push(volume);
            assert(invocation_views(commands@) =~= seq![image@, volume@]);
        },
        None => {
            assert(invocation_views(commands@) =~= Seq::<InvocationView>::empty());
        },
    }
    CleanPlan { remove_dir: info.cache_path.clone(), commands }
}

/// What a cache command comes to.
#[derive(Debug, PartialEq, Eq)]
pub enum CacheAction {
    /// Print these lines.
    Print(Vec<String>),
    /// Clear the cache away.
    Clean(CleanPlan),
}

/// The mathematical value of a [`CacheAction`].
pub enum CacheActionView {
    Print(Seq<Seq<char>>),
    Clean(CleanPlanView),
}

impl View for CacheAction {
    type V = CacheActionView;

    open spec fn view(&self) -> CacheActionView {
        match *self {
            CacheAction::Print(lines) => CacheActionView::Print(views(lines@)),
            CacheAction::Clean(plan) => CacheActionView::Clean(plan@),
        }
    }
}

/// What a cache command comes to, given what is known of the cache of the
/// script it names; none for a `Get` of a name that no item has.
pub open spec fn cache_action_of(cmd: CacheCommandView, info: CacheInfoView) -> Option<CacheActionView> {
    match cmd {
        CacheCommandView::Clean { file } => Some(CacheActionView::Clean(clean_plan_of(info))),
        CacheCommandView::Get { name, file } => match item_named(info, name) {
            Some(value) => Some(CacheActionView::Print(seq![value])),
            None => None,
        },
        CacheCommandView::Info { file } => Some(CacheActionView::Print(info_lines(info))),
    }
}

/// Carries out a cache command on what is known of the cache of the script
/// that the command names.
pub fn command_cache(cmd: &CacheCommand, info: &CacheInfo) -> (r: Result<CacheAction, UnknownItem>)
    ensures
        match cache_action_of(cmd@, info@) {
            Some(action) => r matches Ok(done) && done@ == action,
            None => r matches Err(e) && cmd@ matches CacheCommandView::Get { name, file } && e.name@
                == name && views(e.available@) == item_names(info@),
        },
{
    match cmd {
        CacheCommand::Clean { file: _ } => Ok(CacheAction::Clean(command_clean(info))),
        CacheCommand::Get { name, file: _ } => match command_get(name.as_str(), info) {
            Ok(value) => {
                let mut lines: Vec<String> = Vec::new();
                lines.push(value);
                assert(views(lines@) =~= seq![value@]);
                Ok(CacheAction::Print(lines))
            },
            Err(e) => Err(e),
        },
        CacheCommand::Info { file: _ } => Ok(CacheAction::Print(command_info(info))),
    }
}

} // verus!
