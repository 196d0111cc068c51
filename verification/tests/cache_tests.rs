use scriptisto::builder::{BuildError, Invocation};
use scriptisto::cache::{
    collect_info, command_cache, command_clean, command_get, command_info, CacheAction,
    CacheInfo, CleanPlan, DockerInfo, InfoItem, UnknownItem,
};
use scriptisto::cfg::{BuildSpec, DockerBuild};
use scriptisto::opt::CacheCommand;

const CACHE: &str = "/home/u/.cache/scriptisto/bin/home/u/hello.rs";
const PREFIX: &str = "scriptisto-hello.rs-d0a8c8a5dfba7d7ac487bff9e0986a80";

fn s(x: &str) -> String {
    x.to_string()
}

fn spec(docker: bool) -> BuildSpec {
    BuildSpec {
        script_src: s("main.rs"),
        build_cmd: None,
        build_once_cmd: None,
        target_bin: s("./script"),
        target_interpreter: None,
        replace_shebang_with: String::new(),
        files: vec![],
        docker_build: if docker {
            Some(DockerBuild { dockerfile: None, src_mount_dir: None, extra_args: vec![] })
        } else {
            None
        },
        extra_src_paths: vec![],
        build_in_script_dir: false,
    }
}

fn plain() -> CacheInfo {
    CacheInfo { cache_path: s(CACHE), docker: None }
}

fn docker() -> CacheInfo {
    CacheInfo {
        cache_path: s(CACHE),
        docker: Some(DockerInfo {
            image: s(PREFIX),
            src_volume: format!("{}-src", PREFIX),
            dir_size: s("12 KiB"),
        }),
    }
}

#[test]
fn info_of_a_local_script_is_its_cache_path() {
    assert_eq!(collect_info(&spec(false), CACHE, "12 KiB"), Ok(plain()));
    assert_eq!(plain().items(), vec![InfoItem { name: s("cache_path"), value: s(CACHE) }]);
}

#[test]
fn info_of_a_container_script_names_image_and_volume() {
    assert_eq!(collect_info(&spec(true), CACHE, "12 KiB"), Ok(docker()));
    assert_eq!(
        docker().items(),
        vec![
            InfoItem { name: s("cache_path"), value: s(CACHE) },
            InfoItem { name: s("dir_size"), value: s("12 KiB") },
            InfoItem { name: s("docker_image"), value: s(PREFIX) },
            InfoItem { name: s("docker_src_volume"), value: format!("{}-src", PREFIX) },
        ]
    );
}

#[test]
fn info_fails_where_the_names_fail() {
    assert_eq!(collect_info(&spec(true), "/", "0 bytes"), Err(BuildError::InvalidCachePath));
    assert_eq!(
        collect_info(&spec(false), "/", "0 bytes"),
        Ok(CacheInfo { cache_path: s("/"), docker: None })
    );
}

#[test]
fn get_finds_an_item_by_name() {
    assert_eq!(command_get("cache_path", &plain()), Ok(s(CACHE)));
    assert_eq!(command_get("docker_image", &docker()), Ok(s(PREFIX)));
    assert_eq!(command_get("docker_src_volume", &docker()), Ok(format!("{}-src", PREFIX)));
    assert_eq!(command_get("dir_size", &docker()), Ok(s("12 KiB")));
}

#[test]
fn get_lists_the_names_when_it_finds_none() {
    assert_eq!(
        command_get("docker_image", &plain()),
        Err(UnknownItem { name: s("docker_image"), available: vec![s("cache_path")] })
    );
    assert_eq!(
        command_get("nope", &docker()),
        Err(UnknownItem {
            name: s("nope"),
            available: vec![s("cache_path"), s("dir_size"), s("docker_image"), s("docker_src_volume")],
        })
    );
}

#[test]
fn info_lines_are_padded_to_twenty_columns() {
    assert_eq!(command_info(&plain()), vec![format!("cache_path:          {}", CACHE)]);
    let lines = command_info(&docker());
    assert_eq!(lines.len(), 4);
    assert_eq!(lines[1], "dir_size:            12 KiB");
    assert_eq!(lines[2], format!("docker_image:        {}", PREFIX));
    assert_eq!(lines[3], format!("docker_src_volume:   {}-src", PREFIX));
    for (line, item) in lines.iter().zip(docker().items()) {
        assert_eq!(*line, format!("{:20} {}", format!("{}:", item.name), item.value));
    }
}

fn rm(kind: &str, name: &str) -> Invocation {
    Invocation {
        program: s("docker"),
        args: vec![s(kind), s("rm"), s(name)],
        envs: vec![],
        current_dir: s("/"),
    }
}

#[test]
fn clean_removes_the_directory_and_the_docker_things() {
    assert_eq!(command_clean(&plain()), CleanPlan { remove_dir: s(CACHE), commands: vec![] });
    assert_eq!(
        command_clean(&docker()),
        CleanPlan {
            remove_dir: s(CACHE),
            commands: vec![rm("image", PREFIX), rm("volume", &format!("{}-src", PREFIX))],
        }
    );
}

#[test]
fn cache_command_is_dispatched() {
    let file = s("./hello.rs");
    assert_eq!(
        command_cache(&CacheCommand::Info { file: file.clone() }, &plain()),
        Ok(CacheAction::Print(command_info(&plain())))
    );
    assert_eq!(
        command_cache(&CacheCommand::Clean { file: file.clone() }, &docker()),
        Ok(CacheAction::Clean(command_clean(&docker())))
    );
    assert_eq!(
        command_cache(&CacheCommand::Get { name: s("cache_path"), file: file.clone() }, &plain()),
        Ok(CacheAction::Print(vec![s(CACHE)]))
    );
    assert_eq!(
        command_cache(&CacheCommand::Get { name: s("x"), file }, &plain()),
        Err(UnknownItem { name: s("x"), available: vec![s("cache_path")] })
    );
}
