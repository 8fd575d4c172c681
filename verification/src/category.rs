//! What kind of media a file is, by its name.

use crate::text;
use vstd::prelude::*;

verus! {

/// The parts of a path without those at its end that name nothing.
pub open spec fn named_parts(parts: Seq<Seq<char>>) -> Seq<Seq<char>>
    decreases parts.len(),
{
    if parts.len() > 0 && (parts.last().len() == 0 || parts.last() == "."@) {
        named_parts(parts.drop_last())
    } else {
        parts
    }
}

/// The last component of a path, where it names a file.
pub open spec fn file_name(path: Seq<char>) -> Option<Seq<char>> {
    let parts = named_parts(text::split(path, '/'));
    if parts.len() == 0 || parts.last() == ".."@ {
        None
    } else {
        Some(parts.last())
    }
}

/// Where the last dot of `name` is.
pub open spec fn last_dot(name: Seq<char>) -> Option<int>
    decreases name.len(),
{
    if name.len() == 0 {
        None
    } else if name.last() == '.' {
        Some(name.len() - 1)
    } else {
        last_dot(name.drop_last())
    }
}

/// What follows the last dot of a file's name, unless the name starts with it; else nothing.
pub open spec fn extension(path: Seq<char>) -> Seq<char> {
    match file_name(path) {
        Some(name) => match last_dot(name) {
            Some(dot) if dot > 0 => name.skip(dot + 1),
            _ => Seq::empty(),
        },
        None => Seq::empty(),
    }
}

/// The lower-case form of a character, where that is an ASCII letter: of the upper-case ASCII
/// letters, and of the Kelvin sign.
pub open spec fn lower(c: char) -> char {
    if 'A' <= c <= 'Z' {
        (c as u32 + 32) as char
    } else if c == '\u{212A}' {
        'k'
    } else {
        c
    }
}

pub open spec fn lowered(s: Seq<char>) -> Seq<char> {
    s.map_values(|c: char| lower(c))
}

pub open spec fn is_image_extension(ext: Seq<char>) -> bool {
    ||| ext == "png"@
    ||| ext == "jpg"@
    ||| ext == "jpeg"@
    ||| ext == "gif"@
    ||| ext == "webp"@
    ||| ext == "bmp"@
    ||| ext == "svg"@
}

pub open spec fn is_video_extension(ext: Seq<char>) -> bool {
    ||| ext == "mp4"@
    ||| ext == "mov"@
    ||| ext == "webm"@
    ||| ext == "mkv"@
    ||| ext == "avi"@
}

/// The kind of media that a file is.
pub open spec fn category(path: Seq<char>) -> Seq<char> {
    let ext = lowered(extension(path));
    if is_image_extension(ext) {
        "image"@
    } else if is_video_extension(ext) {
        "video"@
    } else {
        "file"@
    }
}

fn lower_of(c: char) -> (r: char)
    ensures
        r == lower(c),
{
    if 'A' <= c && c <= 'Z' {
        (c as u8 + 32) as char
    } else if c == '\u{212A}' {
        'k'
    } else {
        c
    }
}

/// The extension of `path` in lower case.
fn lowered_extension(path: &str) -> (ext: String)
    ensures
        ext@ == lowered(extension(path@)),
{
    let parts = text::split_on(&text::chars_of(path), '/');
    let ghost seen = text::views(parts@);
    let mut n: usize = parts.len();
    assert(seen.take(n as int) =~= seen);
    while n > 0 && (parts[n - 1].len() == 0 || text::is(&text::string_of(&parts[n - 1]), "."))
        invariant
            n <= parts.len(),
            seen == text::views(parts@),
            named_parts(seen) == named_parts(seen.take(n as int)),
        decreases n,
    {
        assert(seen.take(n as int).drop_last() =~= seen.take(n - 1));
        n -= 1;
    }
    let mut ext = String::new();
    assert(lowered(Seq::empty()) =~= Seq::empty());
    if n == 0 || text::is(&text::string_of(&parts[n - 1]), "..") {
        return ext;
    }
    let name = &parts[n - 1];
    let mut dot: usize = name.len();
    assert(name@.take(dot as int) =~= name@);
    while dot > 0 && name[dot - 1] != '.'
        invariant
            dot <= name.len(),
            last_dot(name@) == last_dot(name@.take(dot as int)),
        decreases dot,
    {
        assert(name@.take(dot as int).drop_last() =~= name@.take(dot - 1));
        dot -= 1;
    }
    if dot <= 1 {
        return ext;
    }
    let mut i: usize = dot;
    while i < name.len()
        invariant
            dot <= i <= name.len(),
            ext@ == lowered(name@.subrange(dot as int, i as int)),
        decreases name.len() - i,
    {
        ext.push(lower_of(name[i]));
        assert(name@.subrange(dot as int, i + 1) =~= name@.subrange(dot as int, i as int).push(
            name@[i as int],
        ));
        assert(ext@ =~= lowered(name@.subrange(dot as int, i + 1)));
        i += 1;
    }
    assert(name@.subrange(dot as int, i as int) =~= name@.skip(dot as int));
    ext
}

/// The kind of media that a file is, by the extension of its name.
pub fn categorize_by_extension(filename: &str) -> (r: &'static str)
    ensures
        r@ == category(filename@),
{
    let ext = lowered_extension(filename);
    if text::is(&ext, "png") || text::is(&ext, "jpg") || text::is(&ext, "jpeg") || text::is(
        &ext,
        "gif",
    ) || text::is(&ext, "webp") || text::is(&ext, "bmp") || text::is(&ext, "svg") {
        "image"
    } else if text::is(&ext, "mp4") || text::is(&ext, "mov") || text::is(&ext, "webm") || text::is(
        &ext,
        "mkv",
    ) || text::is(&ext, "avi") {
        "video"
    } else {
        "file"
    }
}

} // verus!
