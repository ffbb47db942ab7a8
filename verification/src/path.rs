use vstd::prelude::*;

use crate::text::{
    has_char, last_index_of, lemma_last_index_of, lemma_last_index_of_is, rfind_char, same_text,
};

verus! {

/// The last component of a path, as `std::path::Path::file_name` finds it
/// with `/` as the separator: trailing separators and `.` components are
/// skipped; there is none when nothing is left or the last component is `..`.
pub open spec fn file_name_of(path: Seq<char>) -> Option<Seq<char>>
    decreases path.len(),
{
    if path.len() == 0 {
        None
    } else {
        let i = last_index_of(path, '/');
        proof {
            lemma_last_index_of(path, '/');
        }
        let comp = path.subrange(i + 1, path.len() as int);
        if comp.len() == 0 || comp == seq!['.'] {
            if i < 0 {
                None
            } else {
                file_name_of(path.subrange(0, i))
            }
        } else if comp == seq!['.', '.'] {
            None
        } else {
            Some(comp)
        }
    }
}

/// A file name split at its last `.`: the stem before it and the extension
/// after it. A name without a `.`, or whose only `.` is its first character,
/// is all stem and has no extension.
pub open spec fn split_at_last_dot(name: Seq<char>) -> (Seq<char>, Option<Seq<char>>) {
    let d = last_index_of(name, '.');
    if d <= 0 {
        (name, None)
    } else {
        (name.subrange(0, d), Some(name.subrange(d + 1, name.len() as int)))
    }
}

/// `Path::file_stem`.
pub open spec fn stem_of(path: Seq<char>) -> Option<Seq<char>> {
    match file_name_of(path) {
        Some(name) => Some(split_at_last_dot(name).0),
        None => None,
    }
}

/// `Path::extension`.
pub open spec fn extension_of(path: Seq<char>) -> Option<Seq<char>> {
    match file_name_of(path) {
        Some(name) => split_at_last_dot(name).1,
        None => None,
    }
}

/// How a path component counts when the file name is looked for.
#[derive(Clone, Copy, PartialEq, Eq, Debug, Structural)]
enum ComponentKind {
    /// Empty, or `.`: skipped.
    Skipped,
    /// `..`: no file name.
    Parent,
    /// Anything else: the file name.
    Name,
}

/// Classifies the characters `start..end` of `path` as a component.
fn classify_component(path: &str, start: usize, end: usize) -> (k: ComponentKind)
    requires
        start <= end <= path@.len(),
    ensures
        ({
            let comp = path@.subrange(start as int, end as int);
            &&& k == ComponentKind::Skipped <==> (comp.len() == 0 || comp == seq!['.'])
            &&& k == ComponentKind::Parent <==> comp == seq!['.', '.']
        }),
{
    let ghost comp = path@.subrange(start as int, end as int);
    let n = end - start;
    if n == 0 {
        assert(comp.len() == 0);
        assert(comp != seq!['.', '.']) by {
            if comp == seq!['.', '.'] {
                assert(comp.len() == 2);
            }
        }
        ComponentKind::Skipped
    } else if n == 1 && path.get_char(start) == '.' {
        assert(comp =~= seq!['.']);
        ComponentKind::Skipped
    } else if n == 2 && path.get_char(start) == '.' && path.get_char(start + 1) == '.' {
        assert(comp =~= seq!['.', '.']);
        assert(comp != seq!['.']) by {
            if comp == seq!['.'] {
                assert(comp.len() == 1);
            }
        }
        ComponentKind::Parent
    } else {
        assert(comp != seq!['.']) by {
            if comp == seq!['.'] {
                assert(comp.len() == 1 && comp[0] == '.');
            }
        }
        assert(comp != seq!['.', '.']) by {
            if comp == seq!['.', '.'] {
                assert(comp.len() == 2 && comp[0] == '.' && comp[1] == '.');
            }
        }
        ComponentKind::Name
    }
}

/// The last component of `path` (see `file_name_of`).
pub fn file_name(path: &str) -> (r: Option<&str>)
    ensures
        match r {
            Some(name) => file_name_of(path@) == Some(name@),
            None => file_name_of(path@) is None,
        },
{
    let len = path.unicode_len();
    let mut end = len;
    assert(path@.subrange(0, len as int) =~= path@);
    loop
        invariant
            len == path@.len(),
            end <= len,
            file_name_of(path@.subrange(0, end as int)) == file_name_of(path@),
        decreases end,
    {
        let ghost p = path@.subrange(0, end as int);
        if end == 0 {
            return None;
        }
        let slash = rfind_char(path, '/', end);
        proof {
            lemma_last_index_of(p, '/');
        }
        let start = match slash {
            Some(i) => i + 1,
            None => 0,
        };
        assert(p.subrange(last_index_of(p, '/') + 1, end as int) =~= path@.subrange(
            start as int,
            end as int,
        ));
        match classify_component(path, start, end) {
            ComponentKind::Skipped => {
                match slash {
                    None => {
                        return None;
                    },
                    Some(i) => {
                        assert(p.subrange(0, i as int) =~= path@.subrange(0, i as int));
                        end = i;
                    },
                }
            },
            ComponentKind::Parent => {
                return None;
            },
            ComponentKind::Name => {
                return Some(path.substring_char(start, end));
            },
        }
    }
}

/// Splits a file name at its last `.` (see `split_at_last_dot`).
pub fn split_name(name: &str) -> (r: (&str, Option<&str>))
    ensures
        r.0@ == split_at_last_dot(name@).0,
        match r.1 {
            Some(ext) => split_at_last_dot(name@).1 == Some(ext@),
            None => split_at_last_dot(name@).1 is None,
        },
{
    let len = name.unicode_len();
    assert(name@.subrange(0, len as int) =~= name@);
    proof {
        lemma_last_index_of(name@, '.');
    }
    match rfind_char(name, '.', len) {
        Some(d) => {
            if d == 0 {
                (name, None)
            } else {
                (name.substring_char(0, d), Some(name.substring_char(d + 1, len)))
            }
        },
        None => (name, None),
    }
}

/// `Path::file_stem` (see `stem_of`).
pub fn file_stem(path: &str) -> (r: Option<&str>)
    ensures
        match r {
            Some(stem) => stem_of(path@) == Some(stem@),
            None => stem_of(path@) is None,
        },
{
    match file_name(path) {
        Some(name) => Some(split_name(name).0),
        None => None,
    }
}

/// `Path::extension` (see `extension_of`).
pub fn extension(path: &str) -> (r: Option<&str>)
    ensures
        match r {
            Some(ext) => extension_of(path@) == Some(ext@),
            None => extension_of(path@) is None,
        },
{
    match file_name(path) {
        Some(name) => split_name(name).1,
        None => None,
    }
}

/// What `str::to_lowercase` makes of a string: the Unicode lowercase
/// mapping of each character, with the final-sigma rule.
pub uninterp spec fn unicode_lowercase(s: Seq<char>) -> Seq<char>;

/// Whether every character of `s` is ASCII.
pub open spec fn ascii_only(s: Seq<char>) -> bool {
    forall|i: int| 0 <= i < s.len() ==> (s[i] as u32) < 128
}

/// `c` with `A`..`Z` mapped to `a`..`z`.
pub open spec fn ascii_lower_char(c: char) -> char {
    if 'A' <= c && c <= 'Z' {
        ((c as u32) + 32) as char
    } else {
        c
    }
}

/// `s` with `A`..`Z` mapped to `a`..`z`.
pub open spec fn ascii_lowercase(s: Seq<char>) -> Seq<char> {
    s.map_values(|c: char| ascii_lower_char(c))
}

/// Calls `str::to_lowercase`. The contract claims that the result is
/// `unicode_lowercase` of the argument and, as the Unicode lowercase mapping
/// gives for ASCII, that an ASCII string only has `A`..`Z` turned into
/// `a`..`z`. The Unicode tables for other characters are left unsaid.
#[verifier::external_body]
fn to_lowercase(s: &str) -> (r: String)
    ensures
        r@ == unicode_lowercase(s@),
        ascii_only(s@) ==> r@ == ascii_lowercase(s@),
{
    s.to_lowercase()
}

/// The extension of a path, or the empty string where it has none.
pub open spec fn extension_or_empty(path: Seq<char>) -> Seq<char> {
    match extension_of(path) {
        Some(ext) => ext,
        None => Seq::empty(),
    }
}

/// The extension of `path` in lower case, or the empty string where it
/// has none.
pub fn file_extension(path: &str) -> (r: String)
    ensures
        r@ == unicode_lowercase(extension_or_empty(path@)),
        ascii_only(extension_or_empty(path@)) ==> r@ == ascii_lowercase(
            extension_or_empty(path@),
        ),
{
    let ext = match extension(path) {
        Some(ext) => ext,
        None => {
            proof {
                reveal_strlit("");
            }
            assert(""@ =~= Seq::<char>::empty());
            ""
        },
    };
    to_lowercase(ext)
}

/// Lower-case extensions of the supported image formats:
/// jpg, jpeg, png, webp, avif.
pub open spec fn image_extension(ext: Seq<char>) -> bool {
    ||| ext == seq!['j', 'p', 'g']
    ||| ext == seq!['j', 'p', 'e', 'g']
    ||| ext == seq!['p', 'n', 'g']
    ||| ext == seq!['w', 'e', 'b', 'p']
    ||| ext == seq!['a', 'v', 'i', 'f']
}

/// Lower-case extensions of the supported video formats: mp4, mov, avi, mkv.
pub open spec fn video_extension(ext: Seq<char>) -> bool {
    ||| ext == seq!['m', 'p', '4']
    ||| ext == seq!['m', 'o', 'v']
    ||| ext == seq!['a', 'v', 'i']
    ||| ext == seq!['m', 'k', 'v']
}

/// Whether a lower-case extension names a supported image format.
pub fn is_image_extension(ext: &str) -> (r: bool)
    ensures
        r == image_extension(ext@),
{
    proof {
        reveal_strlit("jpg");
        reveal_strlit("jpeg");
        reveal_strlit("png");
        reveal_strlit("webp");
        reveal_strlit("avif");
    }
    assert("jpg"@ =~= seq!['j', 'p', 'g']);
    assert("jpeg"@ =~= seq!['j', 'p', 'e', 'g']);
    assert("png"@ =~= seq!['p', 'n', 'g']);
    assert("webp"@ =~= seq!['w', 'e', 'b', 'p']);
    assert("avif"@ =~= seq!['a', 'v', 'i', 'f']);
    same_text(ext, "jpg") || same_text(ext, "jpeg") || same_text(ext, "png") || same_text(
        ext,
        "webp",
    ) || same_text(ext, "avif")
}

/// Whether a lower-case extension names a supported video format.
pub fn is_video_extension(ext: &str) -> (r: bool)
    ensures
        r == video_extension(ext@),
{
    proof {
        reveal_strlit("mp4");
        reveal_strlit("mov");
        reveal_strlit("avi");
        reveal_strlit("mkv");
    }
    assert("mp4"@ =~= seq!['m', 'p', '4']);
    assert("mov"@ =~= seq!['m', 'o', 'v']);
    assert("avi"@ =~= seq!['a', 'v', 'i']);
    assert("mkv"@ =~= seq!['m', 'k', 'v']);
    same_text(ext, "mp4") || same_text(ext, "mov") || same_text(ext, "avi") || same_text(
        ext,
        "mkv",
    )
}

/// Whether the path names an image by its extension, in any case.
pub fn is_image(path: &str) -> (r: bool)
    ensures
        r == image_extension(unicode_lowercase(extension_or_empty(path@))),
        ascii_only(extension_or_empty(path@)) ==> r == image_extension(
            ascii_lowercase(extension_or_empty(path@)),
        ),
{
    let ext = file_extension(path);
    is_image_extension(ext.as_str())
}

/// Whether the path names a video by its extension, in any case.
pub fn is_video(path: &str) -> (r: bool)
    ensures
        r == video_extension(unicode_lowercase(extension_or_empty(path@))),
        ascii_only(extension_or_empty(path@)) ==> r == video_extension(
            ascii_lowercase(extension_or_empty(path@)),
        ),
{
    let ext = file_extension(path);
    is_video_extension(ext.as_str())
}

/// No extension names both an image and a video format, so no path is
/// taken for both.
pub proof fn lemma_image_video_disjoint(ext: Seq<char>)
    ensures
        !(image_extension(ext) && video_extension(ext)),
{
    if image_extension(ext) && video_extension(ext) {
        assert(ext.len() == 3 || ext.len() == 4);
        if ext.len() == 3 {
            assert(ext[0] == 'j' || ext[0] == 'p');
            assert(ext[0] == 'm' || ext[0] == 'a');
            assert(ext[0] == 'p' ==> ext[1] == 'n');
            assert(false);
        }
    }
}

/// `file` appended to `dir` as `PathBuf::push` does with `/` as the
/// separator: an absolute `file` replaces `dir`, and a separator is put
/// between them unless `dir` is empty or already ends with one.
pub open spec fn joined(dir: Seq<char>, file: Seq<char>) -> Seq<char> {
    if file.len() > 0 && file[0] == '/' {
        file
    } else if dir.len() == 0 || dir.last() == '/' {
        dir + file
    } else {
        dir + seq!['/'] + file
    }
}

/// `_vhs`, the suffix of the default output name.
pub open spec fn vhs_suffix() -> Seq<char> {
    seq!['_', 'v', 'h', 's']
}

/// The output path for `input`: `<name>.<ext>` with the input's extension,
/// where `<name>` is `output_name` or else the input's stem followed by
/// `_vhs`; placed in `output_dir` when one is given, else in the current
/// directory.
pub open spec fn output_path_of(
    input: Seq<char>,
    output_dir: Option<Seq<char>>,
    output_name: Option<Seq<char>>,
) -> Seq<char> {
    let name = match output_name {
        Some(n) => n,
        None => stem_of(input).unwrap() + vhs_suffix(),
    };
    let file = name + seq!['.'] + extension_of(input).unwrap();
    match output_dir {
        Some(dir) => joined(dir, file),
        None => file,
    }
}

/// An extension implies a file name and so a stem.
pub proof fn lemma_extension_has_stem(path: Seq<char>)
    ensures
        extension_of(path) is Some ==> stem_of(path) is Some,
{
}

/// Builds the output path for `input` (see `output_path_of`).
pub fn make_output_path(input: &str, output_dir: Option<&str>, output_name: Option<&str>) -> (r:
    String)
    requires
        extension_of(input@) is Some,
    ensures
        r@ == output_path_of(
            input@,
            match output_dir {
                Some(d) => Some(d@),
                None => None,
            },
            match output_name {
                Some(n) => Some(n@),
                None => None,
            },
        ),
{
    proof {
        reveal_strlit("_vhs");
        reveal_strlit(".");
        reveal_strlit("/");
    }
    assert("_vhs"@ =~= vhs_suffix());
    assert("."@ =~= seq!['.']);
    assert("/"@ =~= seq!['/']);
    let stem = match file_stem(input) {
        Some(s) => s,
        None => {
            assert(false);
            input
        },
    };
    let ext = match extension(input) {
        Some(e) => e,
        None => input,
    };
    let mut file = match output_name {
        Some(n) => String::from_str(n),
        None => {
            let mut s = String::from_str(stem);
            s.append("_vhs");
            s
        },
    };
    file.append(".");
    file.append(ext);
    match output_dir {
        None => file,
        Some(dir) => {
            let n = file.as_str().unicode_len();
            if n > 0 && file.as_str().get_char(0) == '/' {
                file
            } else {
                let mut out = String::from_str(dir);
                let dn = dir.unicode_len();
                if !(dn == 0 || dir.get_char(dn - 1) == '/') {
                    out.append("/");
                }
                out.append(file.as_str());
                out
            }
        },
    }
}

/// A file name is never empty, `.` or `..`, and holds no separator.
pub proof fn lemma_file_name_shape(path: Seq<char>)
    ensures
        file_name_of(path) matches Some(name) ==> {
            &&& name.len() > 0
            &&& name != seq!['.']
            &&& name != seq!['.', '.']
            &&& !has_char(name, '/')
        },
    decreases path.len(),
{
    if path.len() > 0 {
        let i = last_index_of(path, '/');
        lemma_last_index_of(path, '/');
        let comp = path.subrange(i + 1, path.len() as int);
        if comp.len() == 0 || comp == seq!['.'] {
            if i >= 0 {
                lemma_file_name_shape(path.subrange(0, i));
            }
        } else if comp != seq!['.', '.'] {
            assert forall|j: int| 0 <= j < comp.len() implies comp[j] != '/' by {
                assert(comp[j] == path[i + 1 + j]);
            }
        }
    }
}

/// A name of at least three characters without a separator is its own
/// file name.
proof fn lemma_plain_name_is_file_name(name: Seq<char>)
    requires
        name.len() >= 3,
        !has_char(name, '/'),
    ensures
        file_name_of(name) == Some(name),
{
    lemma_last_index_of_is(name, '/', -1);
    assert(name.subrange(0, name.len() as int) =~= name);
    assert(name != seq!['.']) by {
        if name == seq!['.'] {
            assert(name.len() == 1);
        }
    }
    assert(name != seq!['.', '.']) by {
        if name == seq!['.', '.'] {
            assert(name.len() == 2);
        }
    }
}

/// The default output file name, `<stem>_vhs.<ext>`, holds no separator,
/// and splits back into `<stem>_vhs` and `<ext>`.
proof fn lemma_default_file_name(input: Seq<char>)
    requires
        extension_of(input) is Some,
    ensures
        ({
            let out = output_path_of(input, None, None);
            &&& out.len() >= 3
            &&& !has_char(out, '/')
            &&& split_at_last_dot(out) == (
                stem_of(input).unwrap() + vhs_suffix(),
                extension_of(input),
            )
        }),
{
    let name = file_name_of(input).unwrap();
    lemma_file_name_shape(input);
    let d = last_index_of(name, '.');
    lemma_last_index_of(name, '.');
    let stem = name.subrange(0, d);
    let ext = name.subrange(d + 1, name.len() as int);
    assert(stem_of(input) == Some(stem));
    assert(extension_of(input) == Some(ext));
    let out = stem + vhs_suffix() + seq!['.'] + ext;
    assert(output_path_of(input, None, None) == out);
    assert forall|j: int| 0 <= j < out.len() implies out[j] != '/' by {
        if j < stem.len() {
            assert(out[j] == name[j]);
        } else if j >= stem.len() + 5 {
            assert(out[j] == name[j - stem.len() - 5 + d + 1]);
        }
    }
    let k: int = stem.len() as int + 4;
    assert forall|j: int| k < j < out.len() implies out[j] != '.' by {
        assert(out[j] == name[j - k + d]);
    }
    lemma_last_index_of_is(out, '.', k);
    assert(out.subrange(0, k) =~= stem + vhs_suffix());
    assert(out.subrange(k + 1, out.len() as int) =~= ext);
}

/// The default output path keeps the extension of the input and names the
/// file after the input's stem with `_vhs` appended: `photo.JPG` becomes
/// `photo_vhs.JPG`.
pub proof fn lemma_default_output_path(input: Seq<char>)
    requires
        extension_of(input) is Some,
    ensures
        extension_of(output_path_of(input, None, None)) == extension_of(input),
        stem_of(output_path_of(input, None, None)) == Some(
            stem_of(input).unwrap() + vhs_suffix(),
        ),
{
    lemma_default_file_name(input);
    lemma_plain_name_is_file_name(output_path_of(input, None, None));
}

/// Put in an output directory, the output file keeps its name:
/// `<stem>_vhs.<ext>`, with the extension of the input.
pub proof fn lemma_output_path_in_dir(input: Seq<char>, dir: Seq<char>)
    requires
        extension_of(input) is Some,
    ensures
        extension_of(output_path_of(input, Some(dir), None)) == extension_of(input),
        stem_of(output_path_of(input, Some(dir), None)) == Some(
            stem_of(input).unwrap() + vhs_suffix(),
        ),
{
    let file = output_path_of(input, None, None);
    lemma_default_file_name(input);
    lemma_plain_name_is_file_name(file);
    assert(file[0] != '/');
    let out = output_path_of(input, Some(dir), None);
    assert(out == joined(dir, file));
    if dir.len() == 0 {
        assert(out =~= file);
    } else {
        let pre = if dir.last() == '/' {
            dir
        } else {
            dir + seq!['/']
        };
        assert(out =~= pre + file);
        assert(pre.last() == '/');
        let i: int = pre.len() as int - 1;
        assert forall|j: int| i < j < out.len() implies out[j] != '/' by {
            assert(out[j] == file[j - pre.len()]);
        }
        lemma_last_index_of_is(out, '/', i);
        assert(out.subrange(i + 1, out.len() as int) =~= file);
        assert(file != seq!['.']) by {
            if file == seq!['.'] {
                assert(file.len() == 1);
            }
        }
        assert(file != seq!['.', '.']) by {
            if file == seq!['.', '.'] {
                assert(file.len() == 2);
            }
        }
        assert(file_name_of(out) == Some(file));
    }
}

/// No path is taken both for an image and for a video.
pub proof fn lemma_no_path_is_both(path: Seq<char>)
    ensures
        !(image_extension(unicode_lowercase(extension_or_empty(path))) && video_extension(
            unicode_lowercase(extension_or_empty(path)),
        )),
{
    lemma_image_video_disjoint(unicode_lowercase(extension_or_empty(path)));
}

/// A non-empty name without a separator that is neither `.` nor `..` is its
/// own file name.
proof fn lemma_bare_name_is_file_name(name: Seq<char>)
    requires
        name.len() > 0,
        !has_char(name, '/'),
        name != seq!['.'],
        name != seq!['.', '.'],
    ensures
        file_name_of(name) == Some(name),
{
    lemma_last_index_of_is(name, '/', -1);
    assert(name.subrange(0, name.len() as int) =~= name);
}

/// Directories do not change the extension: a file name behind any
/// directory part has the extension it has alone, so `file_extension`
/// gives the same for both.
pub proof fn lemma_extension_ignores_directory(dir: Seq<char>, name: Seq<char>)
    requires
        name.len() > 0,
        !has_char(name, '/'),
        name != seq!['.'],
        name != seq!['.', '.'],
    ensures
        extension_of(dir + seq!['/'] + name) == extension_of(name),
        extension_or_empty(dir + seq!['/'] + name) == extension_or_empty(name),
{
    lemma_bare_name_is_file_name(name);
    let p = dir + seq!['/'] + name;
    let i: int = dir.len() as int;
    assert forall|j: int| i < j < p.len() implies p[j] != '/' by {
        assert(p[j] == name[j - i - 1]);
    }
    lemma_last_index_of_is(p, '/', i);
    assert(p.subrange(i + 1, p.len() as int) =~= name);
}

/// `c` with `a`..`z` mapped to `A`..`Z`.
pub open spec fn ascii_upper_char(c: char) -> char {
    if 'a' <= c && c <= 'z' {
        ((c as u32) - 32) as char
    } else {
        c
    }
}

/// `s` with `a`..`z` mapped to `A`..`Z`.
pub open spec fn ascii_uppercase(s: Seq<char>) -> Seq<char> {
    s.map_values(|c: char| ascii_upper_char(c))
}

/// Upper-casing moves no separator and no dot.
proof fn lemma_upper_keeps_last_index(s: Seq<char>, c: char)
    requires
        c == '/' || c == '.',
    ensures
        last_index_of(ascii_uppercase(s), c) == last_index_of(s, c),
    decreases s.len(),
{
    if s.len() > 0 {
        assert(ascii_uppercase(s).drop_last() =~= ascii_uppercase(s.drop_last()));
        lemma_upper_keeps_last_index(s.drop_last(), c);
    }
}

/// Upper-casing commutes with taking part of a text.
proof fn lemma_upper_subrange(s: Seq<char>, a: int, b: int)
    requires
        0 <= a <= b <= s.len(),
    ensures
        ascii_uppercase(s).subrange(a, b) == ascii_uppercase(s.subrange(a, b)),
{
    assert(ascii_uppercase(s).subrange(a, b) =~= ascii_uppercase(s.subrange(a, b)));
}

/// Upper-casing a component neither makes nor unmakes `.` or `..`.
proof fn lemma_upper_dots(comp: Seq<char>)
    ensures
        (ascii_uppercase(comp) == seq!['.']) == (comp == seq!['.']),
        (ascii_uppercase(comp) == seq!['.', '.']) == (comp == seq!['.', '.']),
{
    let u = ascii_uppercase(comp);
    if comp.len() == 1 {
        if u == seq!['.'] {
            assert(u[0] == '.');
            assert(comp =~= seq!['.']);
        }
        if comp == seq!['.'] {
            assert(u =~= seq!['.']);
        }
    } else if comp.len() == 2 {
        if u == seq!['.', '.'] {
            assert(u[0] == '.' && u[1] == '.');
            assert(comp =~= seq!['.', '.']);
        }
        if comp == seq!['.', '.'] {
            assert(u =~= seq!['.', '.']);
        }
    }
    if u == seq!['.'] {
        assert(u.len() == 1);
    }
    if u == seq!['.', '.'] {
        assert(u.len() == 2);
    }
    if comp == seq!['.'] {
        assert(comp.len() == 1);
    }
    if comp == seq!['.', '.'] {
        assert(comp.len() == 2);
    }
}

/// The file name of an upper-cased path is the upper-cased file name.
proof fn lemma_upper_file_name(p: Seq<char>)
    ensures
        file_name_of(ascii_uppercase(p)) == match file_name_of(p) {
            Some(n) => Some(ascii_uppercase(n)),
            None => None,
        },
    decreases p.len(),
{
    if p.len() > 0 {
        let u = ascii_uppercase(p);
        lemma_upper_keeps_last_index(p, '/');
        lemma_last_index_of(p, '/');
        let i = last_index_of(p, '/');
        lemma_upper_subrange(p, i + 1, p.len() as int);
        let comp = p.subrange(i + 1, p.len() as int);
        lemma_upper_dots(comp);
        if i >= 0 {
            lemma_upper_subrange(p, 0, i);
            lemma_upper_file_name(p.subrange(0, i));
        }
    }
}

/// Letter case does not change which extension a path has: once lower-cased,
/// the extension of an ASCII path and of the same path in upper case are
/// equal, and both are ASCII, so `file_extension` gives the same for both.
pub proof fn lemma_extension_ignores_ascii_case(p: Seq<char>)
    requires
        ascii_only(p),
    ensures
        ascii_only(extension_or_empty(p)),
        ascii_only(extension_or_empty(ascii_uppercase(p))),
        ascii_lowercase(extension_or_empty(ascii_uppercase(p))) == ascii_lowercase(
            extension_or_empty(p),
        ),
{
    lemma_upper_file_name(p);
    lemma_file_name_subrange(p);
    match file_name_of(p) {
        Some(n) => {
            lemma_upper_keeps_last_index(n, '.');
            lemma_last_index_of(n, '.');
            let d = last_index_of(n, '.');
            if d > 0 {
                lemma_upper_subrange(n, d + 1, n.len() as int);
                let e = n.subrange(d + 1, n.len() as int);
                assert(extension_or_empty(p) == e);
                assert(extension_or_empty(ascii_uppercase(p)) == ascii_uppercase(e));
                assert forall|k: int| 0 <= k < e.len() implies (e[k] as u32) < 128 by {
                    assert(e[k] == n[d + 1 + k]);
                }
                lemma_lower_upper(e);
            } else {
                assert(extension_or_empty(p) =~= Seq::<char>::empty());
                assert(extension_or_empty(ascii_uppercase(p)) =~= Seq::<char>::empty());
                assert(ascii_lowercase(Seq::<char>::empty()) =~= Seq::<char>::empty());
            }
        },
        None => {
            assert(extension_or_empty(p) =~= Seq::<char>::empty());
            assert(extension_or_empty(ascii_uppercase(p)) =~= Seq::<char>::empty());
        },
    }
}

/// A file name consists of characters of its path.
proof fn lemma_file_name_subrange(p: Seq<char>)
    ensures
        file_name_of(p) matches Some(n) ==> ascii_only(p) ==> ascii_only(n),
    decreases p.len(),
{
    if p.len() > 0 {
        lemma_last_index_of(p, '/');
        let i = last_index_of(p, '/');
        let comp = p.subrange(i + 1, p.len() as int);
        if comp.len() == 0 || comp == seq!['.'] {
            if i >= 0 {
                let q = p.subrange(0, i);
                lemma_file_name_subrange(q);
                if ascii_only(p) {
                    assert forall|k: int| 0 <= k < q.len() implies (q[k] as u32) < 128 by {
                        assert(q[k] == p[k]);
                    }
                }
            }
        } else if ascii_only(p) {
            assert forall|k: int| 0 <= k < comp.len() implies (comp[k] as u32) < 128 by {
                assert(comp[k] == p[i + 1 + k]);
            }
        }
    }
}

/// Lower-casing after upper-casing is lower-casing, for ASCII text.
proof fn lemma_lower_upper(e: Seq<char>)
    requires
        ascii_only(e),
    ensures
        ascii_only(ascii_uppercase(e)),
        ascii_lowercase(ascii_uppercase(e)) == ascii_lowercase(e),
{
    assert forall|k: int| 0 <= k < e.len() implies (ascii_uppercase(e)[k] as u32) < 128
        && ascii_lower_char(ascii_upper_char(e[k])) == ascii_lower_char(e[k]) by {
        let c = e[k];
        if 'a' <= c && c <= 'z' {
            assert(97 <= (c as u32) <= 122);
        }
    }
    assert(ascii_lowercase(ascii_uppercase(e)) =~= ascii_lowercase(e));
}

/// The image formats are exactly jpg, jpeg, png, webp and avif: no other
/// lower-case extension (heic, gif, ...) is taken for an image.
pub proof fn lemma_image_extensions_exactly(ext: Seq<char>)
    ensures
        image_extension(ext) <==> set![
            seq!['j', 'p', 'g'],
            seq!['j', 'p', 'e', 'g'],
            seq!['p', 'n', 'g'],
            seq!['w', 'e', 'b', 'p'],
            seq!['a', 'v', 'i', 'f'],
        ].contains(ext),
        ext.len() < 3 || ext.len() > 4 ==> !image_extension(ext),
{
}

/// The video formats are exactly mp4, mov, avi and mkv: no other
/// lower-case extension (webm, flv, ...) is taken for a video.
pub proof fn lemma_video_extensions_exactly(ext: Seq<char>)
    ensures
        video_extension(ext) <==> set![
            seq!['m', 'p', '4'],
            seq!['m', 'o', 'v'],
            seq!['a', 'v', 'i'],
            seq!['m', 'k', 'v'],
        ].contains(ext),
        ext.len() != 3 ==> !video_extension(ext),
{
}

/// A given output name is used whole, dots and all: the output is the name,
/// a dot and the input's extension, placed in the output directory when
/// one is given.
pub proof fn lemma_output_name_kept_whole(input: Seq<char>, dir: Seq<char>, name: Seq<char>)
    requires
        extension_of(input) is Some,
    ensures
        output_path_of(input, None, Some(name)) == name + seq!['.'] + extension_of(input).unwrap(),
        output_path_of(input, Some(dir), Some(name)) == joined(
            dir,
            name + seq!['.'] + extension_of(input).unwrap(),
        ),
        output_path_of(input, None, Some(name)).subrange(0, name.len() as int) == name,
{
    let out = output_path_of(input, None, Some(name));
    assert(out.subrange(0, name.len() as int) =~= name);
}

/// A given output name without a separator comes back as the stem of the
/// output path, whole, and the extension is the input's: `2024.07.14` for
/// `IMG_0001.jpg` names `2024.07.14.jpg`, whose stem is `2024.07.14`.
pub proof fn lemma_output_name_is_stem(input: Seq<char>, name: Seq<char>)
    requires
        extension_of(input) is Some,
        name.len() > 0,
        !has_char(name, '/'),
        name != seq!['.'],
    ensures
        stem_of(output_path_of(input, None, Some(name))) == Some(name),
        extension_of(output_path_of(input, None, Some(name))) == extension_of(input),
{
    let fname = file_name_of(input).unwrap();
    lemma_file_name_shape(input);
    let d = last_index_of(fname, '.');
    lemma_last_index_of(fname, '.');
    let ext = fname.subrange(d + 1, fname.len() as int);
    assert(extension_of(input) == Some(ext));
    let out = name + seq!['.'] + ext;
    assert(output_path_of(input, None, Some(name)) == out);
    assert forall|j: int| 0 <= j < out.len() implies out[j] != '/' by {
        if j < name.len() {
            assert(out[j] == name[j]);
        } else if j > name.len() {
            assert(out[j] == fname[j - name.len() - 1 + d + 1]);
        }
    }
    assert(out != seq!['.']) by {
        if out == seq!['.'] {
            assert(out.len() == 1);
        }
    }
    assert(out != seq!['.', '.']) by {
        if out == seq!['.', '.'] {
            assert(out.len() == 2 && name.len() == 1 && out[0] == name[0]);
            assert(name =~= seq!['.']);
        }
    }
    lemma_bare_name_is_file_name(out);
    let k: int = name.len() as int;
    assert forall|j: int| k < j < out.len() implies out[j] != '.' by {
        assert(out[j] == fname[j - k + d]);
    }
    lemma_last_index_of_is(out, '.', k);
    assert(out.subrange(0, k) =~= name);
    assert(out.subrange(k + 1, out.len() as int) =~= ext);
}

} // verus!
