//! How the built target is started: directly, or through the interpreter
//! that the recipe names.

use vstd::prelude::*;
use crate::text::{chars_of, copy_range, opt_view, string_of, views};

verus! {

/// The character is ASCII white space.
pub open spec fn is_ascii_space(c: char) -> bool {
    c == ' ' || c == '\t' || c == '\n' || c == '\x0C' || c == '\r'
}

/// The words of `text` from a scan that stands at `pos`; the current word
/// begins at `start`, which is negative between words.
pub open spec fn words_from(text: Seq<char>, start: int, pos: int) -> Seq<Seq<char>>
    decreases text.len() - pos,
{
    if pos < 0 || pos >= text.len() {
        if 0 <= start < text.len() {
            seq![text.subrange(start, text.len() as int)]
        } else {
            Seq::empty()
        }
    } else if is_ascii_space(text[pos]) {
        if 0 <= start {
            seq![text.subrange(start, pos)] + words_from(text, -1, pos + 1)
        } else {
            words_from(text, -1, pos + 1)
        }
    } else {
        words_from(
            text,
            if 0 <= start {
                start
            } else {
                pos
            },
            pos + 1,
        )
    }
}

/// The words of a text: its longest runs of characters that are not ASCII
/// white space, in order.
pub open spec fn words(text: Seq<char>) -> Seq<Seq<char>> {
    words_from(text, -1, 0)
}

/// A word: not empty, and without white space.
pub open spec fn is_word(word: Seq<char>) -> bool {
    word.len() > 0 && forall|k: int| 0 <= k < word.len() ==> !is_ascii_space(#[trigger] word[k])
}

/// What `words_from` gives are words, as long as the word that the scan is
/// in has been free of white space so far.
pub proof fn lemma_words_from(text: Seq<char>, start: int, pos: int)
    requires
        0 <= pos <= text.len(),
        start < pos,
        0 <= start ==> forall|k: int| start <= k < pos ==> !is_ascii_space(#[trigger] text[k]),
    ensures
        forall|i: int|
            0 <= i < words_from(text, start, pos).len() ==> is_word(
                #[trigger] words_from(text, start, pos)[i],
            ),
    decreases text.len() - pos,
{
    let all = words_from(text, start, pos);
    if pos >= text.len() {
        if 0 <= start {
            let last = text.subrange(start, text.len() as int);
            assert forall|k: int| 0 <= k < last.len() implies !is_ascii_space(
                #[trigger] last[k],
            ) by {
                assert(last[k] == text[start + k]);
            }
            assert(is_word(last));
            assert(all =~= seq![last]);
        }
    } else if is_ascii_space(text[pos]) {
        lemma_words_from(text, -1, pos + 1);
        let rest = words_from(text, -1, pos + 1);
        if 0 <= start {
            let first = text.subrange(start, pos);
            assert forall|k: int| 0 <= k < first.len() implies !is_ascii_space(
                #[trigger] first[k],
            ) by {
                assert(first[k] == text[start + k]);
            }
            assert(is_word(first));
            assert(all =~= seq![first] + rest);
            assert forall|i: int| 0 <= i < all.len() implies is_word(#[trigger] all[i]) by {
                if i > 0 {
                    assert(all[i] == rest[i - 1]);
                }
            }
        } else {
            assert(all == rest);
        }
    } else {
        let begun = if 0 <= start {
            start
        } else {
            pos
        };
        assert forall|k: int| begun <= k < pos + 1 implies !is_ascii_space(#[trigger] text[k]) by {}
        lemma_words_from(text, begun, pos + 1);
        assert(all == words_from(text, begun, pos + 1));
    }
}

/// Every word of a text is a word: not empty, and without white space.
pub proof fn lemma_words(text: Seq<char>)
    ensures
        forall|i: int| 0 <= i < words(text).len() ==> is_word(#[trigger] words(text)[i]),
{
    lemma_words_from(text, -1, 0);
}

/// The program to start and its full argument list, the program's own name
/// first. Without an interpreter the target itself is started with the
/// script's arguments. With one, the interpreter's first word is started,
/// with its further words, then the target, then the script's arguments.
/// An interpreter that is nothing but white space starts nothing.
pub open spec fn target_command_of(
    target_interpreter: Option<Seq<char>>,
    full_target_bin: Seq<char>,
    args: Seq<Seq<char>>,
) -> Option<(Seq<char>, Seq<Seq<char>>)> {
    match target_interpreter {
        Some(interpreter) if interpreter.len() > 0 => {
            let parts = words(interpreter);
            if parts.len() == 0 {
                None
            } else {
                Some((parts[0], parts + seq![full_target_bin] + args))
            }
        },
        _ => Some((full_target_bin, seq![full_target_bin] + args)),
    }
}

fn is_space(c: char) -> (r: bool)
    ensures
        r == is_ascii_space(c),
{
    c == ' ' || c == '\t' || c == '\n' || c == '\x0C' || c == '\r'
}

fn copy_word(text: &Vec<char>, from: usize, to: usize) -> (word: String)
    requires
        from <= to <= text.len(),
    ensures
        word@ == text@.subrange(from as int, to as int),
{
    let word = copy_range(text.as_slice(), from, to);
    string_of(word.as_slice())
}

/// Splits a text into its words.
pub fn split_ascii_whitespace(text: &str) -> (r: Vec<String>)
    ensures
        views(r@) == words(text@),
{
    let chars = chars_of(text);
    let mut r: Vec<String> = Vec::new();
    let mut start: Option<usize> = None;
    let mut pos: usize = 0;
    assert(views(r@) =~= Seq::<Seq<char>>::empty());
    while pos < chars.len()
        invariant
            pos <= chars.len(),
            chars@ == text@,
            start matches Some(s) ==> s < pos,
            words(text@) == views(r@) + words_from(
                chars@,
                match start {
                    Some(s) => s as int,
                    None => -1,
                },
                pos as int,
            ),
        decreases chars.len() - pos,
    {
        let ghost before = views(r@);
        if is_space(chars[pos]) {
            match start {
                Some(s) => {
                    let word = copy_word(&chars, s, pos);
                    r.push(word);
                    assert(views(r@) =~= before.push(word@));
                    assert(before + (seq![word@] + words_from(chars@, -1, pos + 1)) =~= before.push(
                        word@,
                    ) + words_from(chars@, -1, pos + 1));
                },
                None => {},
            }
            start = None;
        } else if start.is_none() {
            start = Some(pos);
        }
        pos += 1;
    }
    let ghost before = views(r@);
    match start {
        Some(s) => {
            let word = copy_word(&chars, s, chars.len());
            r.push(word);
            assert(views(r@) =~= before.push(word@));
            assert(before + seq![word@] =~= before.push(word@));
        },
        None => {
            assert(before + Seq::<Seq<char>>::empty() =~= before);
        },
    }
    r
}

/// The interpreter that a recipe names holds no word.
#[derive(Debug, Clone, Copy, PartialEq, Eq)]
pub struct EmptyInterpreter;

/// The program to start for a built script, and its argument list.
pub fn target_command(
    target_interpreter: &Option<String>,
    full_target_bin: &str,
    args: &Vec<String>,
) -> (r: Result<(String, Vec<String>), EmptyInterpreter>)
    ensures
        match target_command_of(opt_view(*target_interpreter), full_target_bin@, views(args@)) {
            Some((binary, argv)) => r matches Ok(found) && found.0@ == binary && views(found.1@)
                == argv,
            None => r is Err,
        },
{
    let mut argv: Vec<String> = Vec::new();
    let mut binary = String::from_str(full_target_bin);
    match target_interpreter {
        Some(interpreter) => {
            if interpreter.as_str().unicode_len() > 0 {
                let parts = split_ascii_whitespace(interpreter.as_str());
                if parts.len() == 0 {
                    return Err(EmptyInterpreter);
                }
                binary = parts[0].clone();
                argv = parts;
            }
        },
        None => {},
    }
    let ghost head = views(argv@);
    argv.push(String::from_str(full_target_bin));
    assert(views(argv@) =~= head + seq![full_target_bin@]);
    let mut i: usize = 0;
    while i < args.len()
        invariant
            i <= args.len(),
            views(argv@) == head + seq![full_target_bin@] + views(args@).take(i as int),
        decreases args.len() - i,
    {
        let ghost before = views(argv@);
        argv.push(args[i].clone());
        assert(views(argv@) =~= before.push(args[i as int]@));
        assert(views(args@).take(i + 1) =~= views(args@).take(i as int).push(args[i as int]@));
        i += 1;
    }
    assert(views(args@).take(i as int) =~= views(args@));
    proof {
        if head.len() == 0 {
            assert(head + seq![full_target_bin@] + views(args@) =~= seq![full_target_bin@] + views(
                args@,
            ));
        }
    }
    Ok((binary, argv))
}

} // verus!
