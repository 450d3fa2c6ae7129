//! File bundles: the manifest entries that travel with a file clipboard, the
//! rules that keep a received relative path inside its bundle, portable and
//! unique names for staged files, and the paths a received bundle puts on the
//! clipboard.

use vstd::prelude::*;
use vstd::string::*;
use vstd::utf8::encode_utf8;
use crate::path::{lemma_split_slash_append_plain, lemma_split_slash_none, split_on_slash, split_slash};
use crate::path::{file_name, file_name_of, first_component, first_normal_component, join, join_path};
use crate::order::{lemma_sorted_texts_is, sort_dedup_texts, sorted_texts};
use crate::text::{chars_of, contains_char, is_control_char, push_char};

verus! {

/// Largest total size of the files of one bundle.
pub const MAX_FILE_BUNDLE_BYTES: u64 = 256 * 1024 * 1024;

/// Largest number of entries (files and directories) of one bundle.
pub const MAX_FILE_ENTRIES: usize = 512;

/// One file or directory of a bundle, named by its `/`-separated path
/// relative to the bundle root.
pub struct FileEntry {
    pub relative_path: String,
    pub size: u64,
    pub sha256: String,
    pub is_directory: bool,
}

impl Clone for FileEntry {
    fn clone(&self) -> (copy: Self)
        ensures
            copy == *self,
    {
        FileEntry {
            relative_path: self.relative_path.clone(),
            size: self.size,
            sha256: self.sha256.clone(),
            is_directory: self.is_directory,
        }
    }
}

/// Why a relative path was refused.
#[derive(Clone, Copy, Debug, PartialEq, Eq, Structural)]
pub enum PathError {
    /// Empty, longer than 1024 bytes, absolute, or holding a backslash.
    Invalid,
    /// More than 32 components.
    TooDeep,
    /// A component that is empty, `.`, `..`, or longer than 255 bytes.
    Escaping,
    /// A component handed to `relative_to_string` that is not a plain name.
    NotNormal,
}

impl PathError {
    /// The message shown for the refusal.
    pub fn message(&self) -> (text: &'static str)
        ensures
            text@ == match *self {
                PathError::Invalid => "文件清单路径无效"@,
                PathError::TooDeep => "文件清单路径层级过深"@,
                PathError::Escaping => "文件清单包含路径逃逸"@,
                PathError::NotNormal => "文件相对路径无效"@,
            },
    {
        match self {
            PathError::Invalid => "文件清单路径无效",
            PathError::TooDeep => "文件清单路径层级过深",
            PathError::Escaping => "文件清单包含路径逃逸",
            PathError::NotNormal => "文件相对路径无效",
        }
    }
}

/// A component that could leave the bundle or that no file system takes.
pub open spec fn escaping_component(c: Seq<char>) -> bool {
    c.len() == 0 || c == seq!['.'] || c == seq!['.', '.'] || encode_utf8(c).len() > 255
}

/// What `safe_relative_path` makes of `v`: its components, or the reason it
/// is refused, the checks taken in this order.
pub open spec fn relative_path_result(v: Seq<char>) -> Result<Seq<Seq<char>>, PathError> {
    if v.len() == 0 || encode_utf8(v).len() > 1024 || v[0] == '/' || v.contains('\\') {
        Err(PathError::Invalid)
    } else if split_slash(v).len() > 32 {
        Err(PathError::TooDeep)
    } else if exists|i: int| 0 <= i < split_slash(v).len() && escaping_component(#[trigger] split_slash(v)[i]) {
        Err(PathError::Escaping)
    } else {
        Ok(split_slash(v))
    }
}

fn is_escaping_component(c: &str) -> (r: bool)
    ensures
        r == escaping_component(c@),
{
    let chars = chars_of(c);
    if chars.len() == 0 {
        return true;
    }
    if chars.len() == 1 && chars[0] == '.' {
        proof {
            assert(c@ =~= seq!['.']);
        }
        return true;
    }
    if chars.len() == 2 && chars[0] == '.' && chars[1] == '.' {
        proof {
            assert(c@ =~= seq!['.', '.']);
        }
        return true;
    }
    proof {
        if c@ == seq!['.'] {
            assert(c@.len() == 1 && c@[0] == '.');
        }
        if c@ == seq!['.', '.'] {
            assert(c@.len() == 2 && c@[0] == '.' && c@[1] == '.');
        }
    }
    c.as_bytes().len() > 255
}

/// Checks a relative path from a received manifest and splits it into its
/// components: it must be non-empty, at most 1024 bytes, not absolute, free of
/// backslashes, at most 32 components deep, and each component a plain name
/// of 1 to 255 bytes other than `.` and `..`.
pub fn safe_relative_path(value: &str) -> (result: Result<Vec<String>, PathError>)
    ensures
        match result {
            Ok(components) => relative_path_result(value@) == Ok::<Seq<Seq<char>>, PathError>(components.deep_view()),
            Err(e) => relative_path_result(value@) == Err::<Seq<Seq<char>>, PathError>(e),
        },
{
    let chars = chars_of(value);
    if chars.len() == 0 || value.as_bytes().len() > 1024 || chars[0] == '/' || contains_char(value, '\\') {
        return Err(PathError::Invalid);
    }
    let components = split_on_slash(value);
    if components.len() > 32 {
        return Err(PathError::TooDeep);
    }
    let mut i: usize = 0;
    while i < components.len()
        invariant
            !(value@.len() == 0 || encode_utf8(value@).len() > 1024 || value@[0] == '/' || value@.contains('\\')),
            split_slash(value@).len() <= 32,
            i <= components@.len(),
            components@.len() == split_slash(value@).len(),
            forall|j: int| 0 <= j < components@.len() ==> #[trigger] components@[j]@ == split_slash(value@)[j],
            forall|j: int| 0 <= j < i ==> !escaping_component(#[trigger] split_slash(value@)[j]),
        decreases components@.len() - i,
    {
        if is_escaping_component(components[i].as_str()) {
            proof {
                assert(escaping_component(split_slash(value@)[i as int]));
                assert(relative_path_result(value@) == Err::<Seq<Seq<char>>, PathError>(PathError::Escaping));
            }
            return Err(PathError::Escaping);
        }
        i = i + 1;
    }
    proof {
        assert(components.deep_view() =~= split_slash(value@));
    }
    Ok(components)
}

/// A component that `Path::components` yields as a plain name.
pub open spec fn normal_name(c: Seq<char>) -> bool {
    c.len() > 0 && !c.contains('/') && c != seq!['.'] && c != seq!['.', '.']
}

/// The components joined with `/` between them.
pub open spec fn join_slash(cs: Seq<Seq<char>>) -> Seq<char>
    decreases cs.len(),
{
    if cs.len() == 0 {
        Seq::empty()
    } else if cs.len() == 1 {
        cs[0]
    } else {
        join_slash(cs.drop_last()).push('/') + cs.last()
    }
}

/// What `relative_to_string` makes of a list of components.
pub open spec fn relative_string_result(cs: Seq<Seq<char>>) -> Result<Seq<char>, PathError> {
    if exists|i: int| 0 <= i < cs.len() && !normal_name(#[trigger] cs[i]) {
        Err(PathError::NotNormal)
    } else {
        match relative_path_result(join_slash(cs)) {
            Ok(_) => Ok(join_slash(cs)),
            Err(e) => Err(e),
        }
    }
}

fn is_normal_name(c: &str) -> (r: bool)
    ensures
        r == normal_name(c@),
{
    let chars = chars_of(c);
    if chars.len() == 0 || contains_char(c, '/') {
        return false;
    }
    let dot = chars.len() == 1 && chars[0] == '.';
    let dots = chars.len() == 2 && chars[0] == '.' && chars[1] == '.';
    proof {
        if dot {
            assert(c@ =~= seq!['.']);
        }
        if dots {
            assert(c@ =~= seq!['.', '.']);
        }
        if c@ == seq!['.'] {
            assert(c@.len() == 1 && c@[0] == '.');
        }
        if c@ == seq!['.', '.'] {
            assert(c@.len() == 2 && c@[0] == '.' && c@[1] == '.');
        }
    }
    !dot && !dots
}

/// The `/`-separated text of a relative path given by its components, checked
/// as `safe_relative_path` checks a received one.
pub fn relative_to_string(components: &[String]) -> (result: Result<String, PathError>)
    ensures
        match result {
            Ok(text) => relative_string_result(components@.map_values(|c: String| c@)) == Ok::<Seq<char>, PathError>(text@),
            Err(e) => relative_string_result(components@.map_values(|c: String| c@)) == Err::<Seq<char>, PathError>(e),
        },
{
    let ghost cs = components@.map_values(|c: String| c@);
    let mut text = String::new();
    let mut i: usize = 0;
    while i < components.len()
        invariant
            i <= components@.len(),
            cs == components@.map_values(|c: String| c@),
            forall|j: int| 0 <= j < i ==> normal_name(#[trigger] cs[j]),
            text@ == join_slash(cs.take(i as int)),
        decreases components@.len() - i,
    {
        if !is_normal_name(components[i].as_str()) {
            proof {
                assert(!normal_name(cs[i as int]));
            }
            return Err(PathError::NotNormal);
        }
        if i > 0 {
            crate::text::push_char(&mut text, '/');
        }
        text.append(components[i].as_str());
        proof {
            assert(cs.take(i + 1).drop_last() =~= cs.take(i as int));
            if i == 0 {
                assert(text@ =~= join_slash(cs.take(1)));
            }
        }
        i = i + 1;
    }
    proof {
        assert(cs.take(components@.len() as int) =~= cs);
    }
    match safe_relative_path(text.as_str()) {
        Ok(_) => Ok(text),
        Err(e) => Err(e),
    }
}

/// Splitting the `/`-join of names that hold no slash gives the names back.
pub proof fn lemma_split_join(cs: Seq<Seq<char>>)
    requires
        cs.len() >= 1,
        forall|i: int| 0 <= i < cs.len() ==> !(#[trigger] cs[i]).contains('/'),
    ensures
        split_slash(join_slash(cs)) == cs,
    decreases cs.len(),
{
    if cs.len() == 1 {
        lemma_split_slash_none(cs[0]);
        assert(cs =~= seq![cs[0]]);
    } else {
        let init = cs.drop_last();
        assert forall|i: int| 0 <= i < init.len() implies !(#[trigger] init[i]).contains('/') by {
            assert(init[i] == cs[i]);
        }
        lemma_split_join(init);
        let head = join_slash(init).push('/');
        assert(head.drop_last() =~= join_slash(init));
        assert(split_slash(head) == split_slash(join_slash(init)).push(Seq::<char>::empty()));
        assert(!cs[cs.len() - 1].contains('/'));
        lemma_split_slash_append_plain(head, cs.last());
        assert(Seq::<char>::empty() + cs.last() =~= cs.last());
        assert(init.push(Seq::<char>::empty()).update(init.len() as int, cs.last()) =~= cs);
    }
}

/// A path that `relative_to_string` accepts is read back by
/// `safe_relative_path` as the same components.
pub proof fn lemma_relative_path_round_trip(cs: Seq<Seq<char>>)
    requires
        relative_string_result(cs) is Ok,
    ensures
        relative_path_result(join_slash(cs)) == Ok::<Seq<Seq<char>>, PathError>(cs),
{
    assert(forall|i: int| 0 <= i < cs.len() ==> normal_name(#[trigger] cs[i]));
    if cs.len() == 0 {
        assert(join_slash(cs).len() == 0);
    } else {
        lemma_split_join(cs);
    }
}

/// Joining the `/`-separated pieces of a text with `/` gives the text back,
/// and no piece holds a `/`.
proof fn lemma_join_split(v: Seq<char>)
    ensures
        join_slash(split_slash(v)) == v,
        forall|i: int| 0 <= i < split_slash(v).len() ==> !(#[trigger] split_slash(v)[i]).contains('/'),
    decreases v.len(),
{
    crate::path::lemma_split_slash_nonempty(v);
    if v.len() == 0 {
        assert(split_slash(v) =~= seq![Seq::<char>::empty()]);
        assert(join_slash(split_slash(v)) =~= v);
    } else {
        let init = split_slash(v.drop_last());
        lemma_join_split(v.drop_last());
        crate::path::lemma_split_slash_nonempty(v.drop_last());
        if v.last() == '/' {
            let cs = init.push(Seq::<char>::empty());
            assert(cs.drop_last() =~= init);
            assert(join_slash(cs) =~= v.drop_last().push('/'));
            assert(v =~= v.drop_last().push('/'));
            assert forall|i: int| 0 <= i < cs.len() implies !(#[trigger] cs[i]).contains('/') by {
                if i < init.len() {
                    assert(cs[i] == init[i]);
                }
            }
        } else {
            let last = init.last().push(v.last());
            let cs = init.update(init.len() - 1, last);
            if init.len() == 1 {
                assert(join_slash(cs) == cs[0]);
                assert(join_slash(init) == init[0]);
                assert(join_slash(cs) =~= v);
            } else {
                assert(cs.drop_last() =~= init.drop_last());
                assert(join_slash(init) == join_slash(init.drop_last()).push('/') + init.last());
                assert(join_slash(cs) == join_slash(init.drop_last()).push('/') + last);
                let a = join_slash(init.drop_last()).push('/');
                assert(a + init.last().push(v.last()) =~= (a + init.last()).push(v.last()));
                assert(v =~= v.drop_last().push(v.last()));
                assert(join_slash(cs) =~= v);
            }
            assert forall|i: int| 0 <= i < cs.len() implies !(#[trigger] cs[i]).contains('/') by {
                if i < init.len() - 1 {
                    assert(cs[i] == init[i]);
                } else {
                    assert(!init[init.len() - 1].contains('/'));
                    if cs[i].contains('/') {
                        let k = choose|k: int| 0 <= k < cs[i].len() && cs[i][k] == '/';
                        if k < init.last().len() {
                            assert(init.last()[k] == '/');
                        }
                    }
                }
            }
        }
    }
}

/// A received path that `safe_relative_path` accepts is written back by
/// `relative_to_string`, from its components, as the same text.
pub proof fn lemma_checked_path_joins_back(v: Seq<char>, cs: Seq<Seq<char>>)
    requires
        relative_path_result(v) == Ok::<Seq<Seq<char>>, PathError>(cs),
    ensures
        relative_string_result(cs) == Ok::<Seq<char>, PathError>(v),
{
    lemma_join_split(v);
    assert(cs == split_slash(v));
    assert forall|i: int| 0 <= i < cs.len() implies normal_name(#[trigger] cs[i]) by {
        assert(!escaping_component(split_slash(v)[i]));
        assert(!cs[i].contains('/'));
    }
}

/// Characters that some file system refuses in a name: control characters
/// and `< > : " / \\ | ? *`.
pub open spec fn forbidden_in_name(c: char) -> bool {
    is_control_char(c) || c == '<' || c == '>' || c == ':' || c == '"' || c == '/' || c == '\\'
        || c == '|' || c == '?' || c == '*'
}

/// Each forbidden character replaced by `_`.
pub open spec fn replace_forbidden(s: Seq<char>) -> Seq<char> {
    s.map_values(|c: char| if forbidden_in_name(c) { '_' } else { c })
}

/// `str::trim_end_matches([' ', '.'])`.
pub open spec fn trim_end_space_dot(s: Seq<char>) -> Seq<char>
    decreases s.len(),
{
    if s.len() > 0 && (s.last() == ' ' || s.last() == '.') {
        trim_end_space_dot(s.drop_last())
    } else {
        s
    }
}

/// The index of the last `.` in `s`, or -1.
pub open spec fn last_dot_index(s: Seq<char>) -> int
    decreases s.len(),
{
    if s.len() == 0 {
        -1
    } else if s.last() == '.' {
        s.len() - 1
    } else {
        last_dot_index(s.drop_last())
    }
}

/// `Path::file_stem` of a file name: all before the last `.`, unless there is
/// no `.` or the only one starts the name.
pub open spec fn stem_of_name(name: Seq<char>) -> Seq<char> {
    if last_dot_index(name) <= 0 {
        name
    } else {
        name.take(last_dot_index(name))
    }
}

/// `char::to_ascii_uppercase`.
pub open spec fn ascii_upper_char(c: char) -> char {
    if 'a' <= c <= 'z' {
        ((c as u32) - 32) as char
    } else {
        c
    }
}

/// Names that Windows reserves for devices, in upper case.
pub open spec fn reserved_device_name(s: Seq<char>) -> bool {
    s == seq!['C', 'O', 'N'] || s == seq!['P', 'R', 'N'] || s == seq!['A', 'U', 'X'] || s == seq!['N', 'U', 'L']
        || (s.len() == 4 && ((s[0] == 'C' && s[1] == 'O' && s[2] == 'M') || (s[0] == 'L' && s[1] == 'P' && s[2] == 'T'))
        && '1' <= s[3] <= '9')
}

/// The name with forbidden characters replaced and trailing spaces and dots
/// removed, `_` where nothing is left.
pub open spec fn portable_base(name: Seq<char>) -> Seq<char> {
    let t = trim_end_space_dot(replace_forbidden(name));
    if t.len() == 0 {
        seq!['_']
    } else {
        t
    }
}

/// A file name that every platform accepts: `portable_base`, with `_` in
/// front where its stem is a reserved device name in any case.
pub open spec fn portable(name: Seq<char>) -> Seq<char> {
    let v = portable_base(name);
    if reserved_device_name(stem_of_name(v).map_values(|c: char| ascii_upper_char(c))) {
        seq!['_'] + v
    } else {
        v
    }
}

fn upper_char(c: char) -> (r: char)
    ensures
        r == ascii_upper_char(c),
{
    if 'a' <= c && c <= 'z' {
        ((c as u8) - 32) as char
    } else {
        c
    }
}

fn is_reserved_device_name(s: &[char]) -> (r: bool)
    ensures
        r == reserved_device_name(s@),
{
    let n = s.len();
    let three = n == 3 && ((s[0] == 'C' && s[1] == 'O' && s[2] == 'N') || (s[0] == 'P' && s[1] == 'R' && s[2] == 'N')
        || (s[0] == 'A' && s[1] == 'U' && s[2] == 'X') || (s[0] == 'N' && s[1] == 'U' && s[2] == 'L'));
    let four = n == 4 && ((s[0] == 'C' && s[1] == 'O' && s[2] == 'M') || (s[0] == 'L' && s[1] == 'P' && s[2] == 'T'))
        && '1' <= s[3] && s[3] <= '9';
    proof {
        if n == 3 {
            assert(s@ == seq!['C', 'O', 'N'] <==> (s@[0] == 'C' && s@[1] == 'O' && s@[2] == 'N')) by {
                if s@[0] == 'C' && s@[1] == 'O' && s@[2] == 'N' {
                    assert(s@ =~= seq!['C', 'O', 'N']);
                }
            }
            assert(s@ == seq!['P', 'R', 'N'] <==> (s@[0] == 'P' && s@[1] == 'R' && s@[2] == 'N')) by {
                if s@[0] == 'P' && s@[1] == 'R' && s@[2] == 'N' {
                    assert(s@ =~= seq!['P', 'R', 'N']);
                }
            }
            assert(s@ == seq!['A', 'U', 'X'] <==> (s@[0] == 'A' && s@[1] == 'U' && s@[2] == 'X')) by {
                if s@[0] == 'A' && s@[1] == 'U' && s@[2] == 'X' {
                    assert(s@ =~= seq!['A', 'U', 'X']);
                }
            }
            assert(s@ == seq!['N', 'U', 'L'] <==> (s@[0] == 'N' && s@[1] == 'U' && s@[2] == 'L')) by {
                if s@[0] == 'N' && s@[1] == 'U' && s@[2] == 'L' {
                    assert(s@ =~= seq!['N', 'U', 'L']);
                }
            }
        } else {
            assert(s@ != seq!['C', 'O', 'N'] && s@ != seq!['P', 'R', 'N'] && s@ != seq!['A', 'U', 'X'] && s@ != seq!['N', 'U', 'L']) by {
                assert(seq!['C', 'O', 'N'].len() == 3);
                assert(seq!['P', 'R', 'N'].len() == 3);
                assert(seq!['A', 'U', 'X'].len() == 3);
                assert(seq!['N', 'U', 'L'].len() == 3);
            }
        }
    }
    three || four
}

/// A portable file name for `name`: forbidden characters become `_`,
/// trailing spaces and dots go, an empty result becomes `_`, and a name whose
/// stem is a reserved device name gets `_` in front.
pub fn portable_name(name: &str) -> (value: String)
    ensures
        value@ == portable(name@),
{
    let chars = chars_of(name);
    let mut mapped: Vec<char> = Vec::new();
    let mut i: usize = 0;
    while i < chars.len()
        invariant
            chars@ == name@,
            i <= chars@.len(),
            mapped@ == replace_forbidden(name@.take(i as int)),
        decreases chars@.len() - i,
    {
        let c = chars[i];
        let forbidden = crate::text::char_is_control(c) || c == '<' || c == '>' || c == ':' || c == '"' || c == '/'
            || c == '\\' || c == '|' || c == '?' || c == '*';
        mapped.push(if forbidden { '_' } else { c });
        i = i + 1;
        proof {
            assert(replace_forbidden(name@.take(i as int)) =~= replace_forbidden(name@.take(i - 1)).push(
                if forbidden_in_name(c) { '_' } else { c },
            ));
        }
    }
    proof {
        assert(name@.take(chars@.len() as int) =~= name@);
    }
    let mut end = mapped.len();
    proof {
        assert(mapped@.take(end as int) =~= mapped@);
    }
    while end > 0 && (mapped[end - 1] == ' ' || mapped[end - 1] == '.')
        invariant
            end <= mapped@.len(),
            trim_end_space_dot(mapped@.take(end as int)) == trim_end_space_dot(mapped@),
        decreases end,
    {
        proof {
            assert(mapped@.take(end as int).drop_last() =~= mapped@.take(end - 1));
        }
        end = end - 1;
    }
    proof {
        assert(trim_end_space_dot(mapped@.take(end as int)) == mapped@.take(end as int));
    }
    let mut base: Vec<char> = Vec::new();
    let mut k: usize = 0;
    while k < end
        invariant
            k <= end <= mapped@.len(),
            base@ == mapped@.take(k as int),
        decreases end - k,
    {
        base.push(mapped[k]);
        k = k + 1;
        proof {
            assert(base@ =~= mapped@.take(k as int));
        }
    }
    if base.len() == 0 {
        base.push('_');
        proof {
            assert(base@ =~= seq!['_']);
        }
    }
    proof {
        assert(base@ == portable_base(name@));
    }
    let mut dot: usize = base.len();
    let mut j: usize = base.len();
    proof {
        assert(base@.take(j as int) =~= base@);
    }
    while j > 0 && dot == base.len()
        invariant
            j <= base@.len(),
            dot == base@.len() || (dot < base@.len() && dot as int == last_dot_index(base@)),
            dot == base@.len() ==> last_dot_index(base@) == last_dot_index(base@.take(j as int)),
        decreases j,
    {
        proof {
            assert(base@.take(j as int).drop_last() =~= base@.take(j - 1));
        }
        if base[j - 1] == '.' {
            dot = j - 1;
        }
        j = j - 1;
    }
    proof {
        if dot == base@.len() {
            assert(base@.take(0) =~= Seq::<char>::empty());
        }
    }
    let stem_end: usize = if dot == base.len() || dot == 0 { base.len() } else { dot };
    let mut upper: Vec<char> = Vec::new();
    let mut m: usize = 0;
    while m < stem_end
        invariant
            m <= stem_end <= base@.len(),
            upper@ == base@.take(m as int).map_values(|c: char| ascii_upper_char(c)),
        decreases stem_end - m,
    {
        upper.push(upper_char(base[m]));
        m = m + 1;
        proof {
            assert(upper@ =~= base@.take(m as int).map_values(|c: char| ascii_upper_char(c)));
        }
    }
    proof {
        assert(base@.take(base@.len() as int) =~= base@);
        assert(stem_of_name(base@) == base@.take(stem_end as int));
    }
    let mut value = String::new();
    if is_reserved_device_name(upper.as_slice()) {
        crate::text::push_char(&mut value, '_');
    }
    let mut t: usize = 0;
    let ghost prefix = value@;
    while t < base.len()
        invariant
            t <= base@.len(),
            value@ == prefix + base@.take(t as int),
        decreases base@.len() - t,
    {
        crate::text::push_char(&mut value, base[t]);
        t = t + 1;
        proof {
            assert(value@ =~= prefix + base@.take(t as int));
        }
    }
    proof {
        assert(base@.take(base@.len() as int) =~= base@);
        if prefix.len() == 0 {
            assert(value@ =~= base@);
        } else {
            assert(prefix =~= seq!['_']);
        }
    }
    value
}

proof fn lemma_trim_end_space_dot(s: Seq<char>)
    ensures
        trim_end_space_dot(s).len() <= s.len(),
        trim_end_space_dot(s) == s.take(trim_end_space_dot(s).len() as int),
        trim_end_space_dot(s).len() > 0 ==> trim_end_space_dot(s).last() != ' ' && trim_end_space_dot(s).last() != '.',
    decreases s.len(),
{
    if s.len() > 0 && (s.last() == ' ' || s.last() == '.') {
        lemma_trim_end_space_dot(s.drop_last());
        let t = trim_end_space_dot(s.drop_last());
        assert(s.drop_last().take(t.len() as int) =~= s.take(t.len() as int));
    } else {
        assert(s.take(s.len() as int) =~= s);
    }
}

/// A portable name is a plain name: not empty, without `/`, and neither `.`
/// nor `..`; so it can stand as a component of a staged relative path.
pub proof fn lemma_portable_is_normal_name(name: Seq<char>)
    ensures
        normal_name(portable(name)),
        !portable(name).contains('\\'),
{
    let r = replace_forbidden(name);
    let t = trim_end_space_dot(r);
    lemma_trim_end_space_dot(r);
    let v = portable_base(name);
    assert(forall|i: int| 0 <= i < v.len() ==> v[i] != '/' && v[i] != '\\') by {
        assert forall|i: int| 0 <= i < v.len() implies v[i] != '/' && v[i] != '\\' by {
            if t.len() > 0 {
                assert(v[i] == r[i]);
            }
        }
    }
    assert(v.len() > 0);
    assert(v != seq!['.'] && v != seq!['.', '.']) by {
        if t.len() > 0 {
            assert(v.last() != '.');
            assert(seq!['.'].last() == '.');
            assert(seq!['.', '.'].last() == '.');
        } else {
            assert(v[0] == '_');
        }
    }
    let p = portable(name);
    if p != v {
        assert(p == seq!['_'] + v);
        assert(forall|i: int| 0 <= i < p.len() ==> p[i] != '/' && p[i] != '\\') by {
            assert forall|i: int| 0 <= i < p.len() implies p[i] != '/' && p[i] != '\\' by {
                if i > 0 {
                    assert(p[i] == v[i - 1]);
                }
            }
        }
        assert(p != seq!['.'] && p != seq!['.', '.']) by {
            assert(p[0] == '_');
        }
    }
}

/// The decimal digits of `n`, most significant first.
pub open spec fn decimal(n: nat) -> Seq<char>
    decreases n,
{
    if n < 10 {
        seq![((48 + n) as u32) as char]
    } else {
        decimal(n / 10).push(((48 + n % 10) as u32) as char)
    }
}

/// Decimal digits have at least one digit, and two from ten on.
pub proof fn lemma_decimal_len(n: nat)
    ensures
        decimal(n).len() >= 1,
        n >= 10 ==> decimal(n).len() >= 2,
    decreases n,
{
    if n >= 10 {
        lemma_decimal_len(n / 10);
    }
}

/// Different numbers have different decimal digits.
pub proof fn lemma_decimal_injective(a: nat, b: nat)
    requires
        decimal(a) == decimal(b),
    ensures
        a == b,
    decreases a,
{
    lemma_decimal_len(a);
    lemma_decimal_len(b);
    if a >= 10 && b >= 10 {
        let da = decimal(a);
        let db = decimal(b);
        assert(da.last() == db.last());
        assert(a % 10 == b % 10);
        assert(da.drop_last() =~= decimal(a / 10));
        assert(db.drop_last() =~= decimal(b / 10));
        lemma_decimal_injective(a / 10, b / 10);
        assert(a == (a / 10) * 10 + a % 10) by (nonlinear_arith);
        assert(b == (b / 10) * 10 + b % 10) by (nonlinear_arith);
    } else if a < 10 && b < 10 {
        let ca = ((48 + a) as u32) as char;
        let cb = ((48 + b) as u32) as char;
        assert(seq![ca][0] == seq![cb][0]);
        assert(ca as u32 == 48 + a);
    }
}

/// Appends the decimal digits of `n`.
pub fn push_decimal(s: &mut String, n: u64)
    ensures
        final(s)@ == old(s)@ + decimal(n as nat),
    decreases n,
{
    if n >= 10 {
        push_decimal(s, n / 10);
    }
    let digit = ((n % 10) as u8 + 48) as char;
    push_char(s, digit);
    proof {
        if n < 10 {
            assert(old(s)@ + decimal(n as nat) =~= old(s)@.push(digit));
        } else {
            assert(old(s)@ + decimal(n as nat) =~= (old(s)@ + decimal((n / 10) as nat)).push(digit));
        }
    }
}

/// `Path::file_stem` of a path: the stem of its file name, `file` where it has
/// none.
pub open spec fn name_stem(name: Seq<char>) -> Seq<char> {
    match file_name_of(name) {
        Some(f) => stem_of_name(f),
        None => seq!['f', 'i', 'l', 'e'],
    }
}

/// `Path::extension` of a path: what follows the last `.` of its file name,
/// unless that `.` starts the name.
pub open spec fn name_extension(name: Seq<char>) -> Option<Seq<char>> {
    match file_name_of(name) {
        Some(f) => if last_dot_index(f) <= 0 {
            None
        } else {
            Some(f.skip(last_dot_index(f) + 1))
        },
        None => None,
    }
}

/// `{stem} ({n}).{extension}`, or `{stem} ({n})` without an extension.
pub open spec fn numbered_name(name: Seq<char>, n: nat) -> Seq<char> {
    name_stem(name) + seq![' ', '('] + decimal(n) + seq![')'] + match name_extension(name) {
        Some(e) => seq!['.'] + e,
        None => Seq::empty(),
    }
}

/// The index of the last `.` among `chars`.
fn last_dot(chars: &[char]) -> (dot: Option<usize>)
    ensures
        match dot {
            Some(k) => k as int == last_dot_index(chars@) && k < chars@.len() && chars@[k as int] == '.',
            None => last_dot_index(chars@) == -1,
        },
{
    let mut j: usize = chars.len();
    proof {
        assert(chars@.take(j as int) =~= chars@);
    }
    while j > 0
        invariant
            j <= chars@.len(),
            last_dot_index(chars@) == last_dot_index(chars@.take(j as int)),
        decreases j,
    {
        proof {
            assert(chars@.take(j as int).drop_last() =~= chars@.take(j - 1));
        }
        if chars[j - 1] == '.' {
            return Some(j - 1);
        }
        j = j - 1;
    }
    None
}

/// The stem and extension of a path, as `Path::file_stem` (with `file` where
/// there is none) and `Path::extension` give them.
fn stem_and_extension(name: &str) -> (parts: (String, Option<String>))
    ensures
        parts.0@ == name_stem(name@),
        match parts.1 {
            Some(e) => name_extension(name@) == Some(e@),
            None => name_extension(name@) is None,
        },
{
    match crate::path::file_name(name) {
        None => {
            let mut stem = String::new();
            push_char(&mut stem, 'f');
            push_char(&mut stem, 'i');
            push_char(&mut stem, 'l');
            push_char(&mut stem, 'e');
            proof {
                assert(stem@ =~= seq!['f', 'i', 'l', 'e']);
            }
            (stem, None)
        },
        Some(f) => {
            let chars = chars_of(f.as_str());
            match last_dot(chars.as_slice()) {
                Some(k) => {
                    assert(k < chars.len());
                    if k == 0 {
                        (f, None)
                    } else {
                        let stem = crate::text::string_from_chars(chars.as_slice(), 0, k);
                        let extension = crate::text::string_from_chars(chars.as_slice(), k + 1, chars.len());
                        proof {
                            assert(stem@ =~= f@.take(k as int));
                            assert(extension@ =~= f@.skip(k + 1));
                        }
                        (stem, Some(extension))
                    }
                },
                None => (f, None),
            }
        },
    }
}

fn numbered(stem: &str, extension: &Option<String>, index: u32) -> (candidate: String)
    ensures
        candidate@ == stem@ + seq![' ', '('] + decimal(index as nat) + seq![')'] + match extension {
            Some(e) => seq!['.'] + e@,
            None => Seq::empty(),
        },
{
    let mut candidate = String::from_str(stem);
    push_char(&mut candidate, ' ');
    push_char(&mut candidate, '(');
    push_decimal(&mut candidate, index as u64);
    push_char(&mut candidate, ')');
    let ghost before = candidate@;
    match extension {
        Some(e) => {
            push_char(&mut candidate, '.');
            candidate.append(e.as_str());
            proof {
                assert(candidate@ =~= before + (seq!['.'] + e@));
            }
        },
        None => {
            proof {
                assert(candidate@ =~= before + Seq::<char>::empty());
            }
        },
    }
    candidate
}

/// Whether `names` holds `name`.
pub fn contains_name(names: &Vec<String>, name: &str) -> (found: bool)
    ensures
        found == names.deep_view().contains(name@),
{
    let mut i: usize = 0;
    while i < names.len()
        invariant
            i <= names@.len(),
            forall|j: int| 0 <= j < i ==> names@[j]@ != name@,
        decreases names@.len() - i,
    {
        if crate::text::str_equal(names[i].as_str(), name) {
            proof {
                assert(names.deep_view()[i as int] == name@);
            }
            return true;
        }
        i = i + 1;
    }
    proof {
        if names.deep_view().contains(name@) {
            let j = choose|j: int| 0 <= j < names.deep_view().len() && names.deep_view()[j] == name@;
            assert(names@[j]@ == name@);
        }
    }
    false
}

/// A name not yet in `used`, which is added to it: `name` itself where it is
/// free, else `{stem} ({n}).{extension}` (or `{stem} ({n})`) with the least
/// `n` from 2 on that is free. Some `n` up to `u32::MAX` must be free.
pub fn unique_name(name: &str, used: &mut Vec<String>) -> (unique: String)
    requires
        old(used).deep_view().contains(name@) ==> exists|n: int|
            2 <= n <= u32::MAX && !old(used).deep_view().contains(#[trigger] numbered_name(name@, n as nat)),
    ensures
        !old(used).deep_view().contains(unique@),
        final(used).deep_view() == old(used).deep_view().push(unique@),
        !old(used).deep_view().contains(name@) ==> unique@ == name@,
        old(used).deep_view().contains(name@) ==> exists|n: int|
            2 <= n <= u32::MAX && unique@ == #[trigger] numbered_name(name@, n as nat) && forall|m: int|
                2 <= m < n ==> old(used).deep_view().contains(#[trigger] numbered_name(name@, m as nat)),
{
    let ghost old_used = used.deep_view();
    if !contains_name(used, name) {
        let fresh = String::from_str(name);
        used.push(fresh.clone());
        proof {
            assert(used.deep_view() =~= old_used.push(fresh@));
        }
        return fresh;
    }
    let (stem, extension) = stem_and_extension(name);
    let mut index: u32 = 2;
    loop
        invariant
            2 <= index,
            old_used == old(used).deep_view(),
            used.deep_view() == old_used,
            old_used.contains(name@),
            stem@ == name_stem(name@),
            match extension {
                Some(e) => name_extension(name@) == Some(e@),
                None => name_extension(name@) is None,
            },
            exists|n: int| 2 <= n <= u32::MAX && !old_used.contains(#[trigger] numbered_name(name@, n as nat)),
            forall|m: int| 2 <= m < index ==> old_used.contains(#[trigger] numbered_name(name@, m as nat)),
        decreases u32::MAX - index,
    {
        let candidate = numbered(stem.as_str(), &extension, index);
        proof {
            assert(candidate@ == numbered_name(name@, index as nat));
        }
        if !contains_name(used, candidate.as_str()) {
            used.push(candidate.clone());
            proof {
                assert(used.deep_view() =~= old_used.push(candidate@));
                let n = index as int;
                assert(2 <= n <= u32::MAX && candidate@ == numbered_name(name@, n as nat) && forall|m: int|
                    2 <= m < n ==> old_used.contains(#[trigger] numbered_name(name@, m as nat)));
            }
            return candidate;
        }
        if index == u32::MAX {
            proof {
                let n = choose|n: int| 2 <= n <= u32::MAX && !old_used.contains(#[trigger] numbered_name(name@, n as nat));
                assert(old_used.contains(numbered_name(name@, index as nat)));
                if n < index {
                    assert(old_used.contains(numbered_name(name@, n as nat)));
                }
                assert(false);
            }
            return candidate;
        }
        index = index + 1;
    }
}

/// A bundle that was received and written under `root`, with its manifest.
pub struct ReceivedFileBundle {
    root: String,
    entries: Vec<FileEntry>,
}

/// The names of the paths that have one, in order (`Path::file_name` of
/// each, those without one left out).
pub open spec fn file_names(paths: Seq<Seq<char>>) -> Seq<Seq<char>>
    decreases paths.len(),
{
    if paths.len() == 0 {
        Seq::empty()
    } else {
        let init = file_names(paths.drop_last());
        match file_name_of(paths.last()) {
            Some(n) => init.push(n),
            None => init,
        }
    }
}

impl ReceivedFileBundle {
    /// The directory the bundle was written to.
    pub closed spec fn root_path(&self) -> Seq<char> {
        self.root@
    }

    /// The relative paths of the bundle's entries, in manifest order.
    pub closed spec fn relative_paths(&self) -> Seq<Seq<char>> {
        self.entries@.map_values(|e: FileEntry| e.relative_path@)
    }

    /// `p` is the root joined with the first component of some entry, where
    /// that component is a plain name.
    pub open spec fn is_clipboard_path(&self, p: Seq<char>) -> bool {
        exists|i: int| 0 <= i < self.relative_paths().len() && match first_normal_component(#[trigger] self.relative_paths()[i]) {
            Some(n) => p == join_path(self.root_path(), n),
            None => false,
        }
    }

    /// The clipboard paths in increasing byte order, each once.
    pub open spec fn clipboard_path_list(&self) -> Seq<Seq<char>> {
        sorted_texts(|p: Seq<char>| self.is_clipboard_path(p))
    }

    pub fn new(root: String, entries: Vec<FileEntry>) -> (bundle: Self)
        ensures
            bundle.root_path() == root@,
            bundle.relative_paths() == entries@.map_values(|e: FileEntry| e.relative_path@),
    {
        ReceivedFileBundle { root, entries }
    }

    /// The top-level items of the bundle, as paths under its root: the first
    /// component of each entry (where it is a plain name) joined to the root,
    /// sorted, each once.
    pub fn clipboard_paths(&self) -> (paths: Vec<String>)
        ensures
            paths.deep_view() == self.clipboard_path_list(),
            crate::order::texts_strictly_sorted(paths.deep_view()),
            forall|p: Seq<char>| paths.deep_view().contains(p) <==> #[trigger] self.is_clipboard_path(p),
    {
        let ghost rel = self.relative_paths();
        let mut paths: Vec<String> = Vec::new();
        let mut i: usize = 0;
        while i < self.entries.len()
            invariant
                i <= self.entries@.len(),
                rel == self.relative_paths(),
                rel.len() == self.entries@.len(),
                forall|j: int| 0 <= j < paths@.len() ==> self.is_clipboard_path(#[trigger] paths@[j]@),
                forall|k: int| 0 <= k < i ==> match first_normal_component(#[trigger] rel[k]) {
                    Some(n) => exists|j: int| 0 <= j < paths@.len() && paths@[j]@ == join_path(self.root_path(), n),
                    None => true,
                },
            decreases self.entries@.len() - i,
        {
            proof {
                assert(rel[i as int] == self.entries@[i as int].relative_path@);
            }
            match first_component(self.entries[i].relative_path.as_str()) {
                Some(name) => {
                    let path = join(self.root.as_str(), name.as_str());
                    let ghost before = paths@;
                    paths.push(path);
                    proof {
                        assert(self.is_clipboard_path(path@)) by {
                            assert(first_normal_component(rel[i as int]) == Some(name@));
                        }
                        assert forall|k: int| 0 <= k < i + 1 implies match first_normal_component(#[trigger] rel[k]) {
                            Some(n) => exists|j: int| 0 <= j < paths@.len() && paths@[j]@ == join_path(self.root_path(), n),
                            None => true,
                        } by {
                            if k == i {
                                assert(paths@[before.len() as int]@ == join_path(self.root_path(), name@));
                            } else {
                                match first_normal_component(rel[k]) {
                                    Some(n) => {
                                        let j = choose|j: int| 0 <= j < before.len() && before[j]@ == join_path(self.root_path(), n);
                                        assert(paths@[j] == before[j]);
                                    },
                                    None => {},
                                }
                            }
                        }
                    }
                },
                None => {},
            }
            i = i + 1;
        }
        let ghost pre = paths@;
        let ghost collected = paths.deep_view();
        sort_dedup_texts(&mut paths);
        proof {
            let s = paths.deep_view();
            assert forall|p: Seq<char>| s.contains(p) <==> self.is_clipboard_path(p) by {
                if collected.contains(p) {
                    let c = choose|c: int| 0 <= c < collected.len() && collected[c] == p;
                    assert(collected[c] == pre[c]@);
                    assert(self.is_clipboard_path(pre[c]@));
                }
                if self.is_clipboard_path(p) {
                    let i = choose|i: int| 0 <= i < rel.len() && match first_normal_component(#[trigger] rel[i]) {
                        Some(n) => p == join_path(self.root_path(), n),
                        None => false,
                    };
                    let n = first_normal_component(rel[i]).unwrap();
                    let c = choose|c: int| 0 <= c < pre.len() && pre[c]@ == join_path(self.root_path(), n);
                    assert(collected[c] == pre[c]@);
                    assert(collected.contains(p));
                }
            }
            lemma_sorted_texts_is(s, |p: Seq<char>| self.is_clipboard_path(p));
        }
        paths
    }

    /// The file names of the clipboard paths, in the same order.
    pub fn display_names(&self) -> (names: Vec<String>)
        ensures
            names.deep_view() == file_names(self.clipboard_path_list()),
    {
        let paths = self.clipboard_paths();
        let mut names: Vec<String> = Vec::new();
        let mut i: usize = 0;
        while i < paths.len()
            invariant
                i <= paths@.len(),
                names.deep_view() == file_names(paths.deep_view().take(i as int)),
            decreases paths@.len() - i,
        {
            proof {
                assert(paths.deep_view().take(i + 1).drop_last() =~= paths.deep_view().take(i as int));
                assert(paths.deep_view().take(i + 1).last() == paths@[i as int]@);
            }
            match file_name(paths[i].as_str()) {
                Some(name) => {
                    names.push(name);
                    proof {
                        assert(names.deep_view() =~= file_names(paths.deep_view().take(i as int)).push(name@));
                    }
                },
                None => {},
            }
            i = i + 1;
        }
        proof {
            assert(paths.deep_view().take(paths@.len() as int) =~= paths.deep_view());
        }
        names
    }
}

/// The header that precedes a file bundle on the wire.
pub struct FileBlobHeader {
    pub schema_version: u8,
    pub message_id: String,
    pub origin_sequence: u64,
    pub captured_at: String,
    pub total_size: u64,
    pub entries: Vec<FileEntry>,
    pub group_ids: Vec<String>,
}

/// Why a file bundle header was refused.
#[derive(Clone, Copy, Debug, PartialEq, Eq, Structural)]
pub enum HeaderError {
    /// Wrong schema, no entries, too many entries, or too large in total.
    Invalid,
    /// An entry's relative path is refused.
    Path(PathError),
    /// Two entries have the same relative path.
    DuplicatePath,
    /// A directory entry with a size or a hash.
    DirectoryFields,
    /// A file hash that is not 64 hexadecimal digits.
    HashFormat,
    /// The file sizes overflow a `u64`.
    SizeOverflow,
    /// The file sizes do not add up to the stated total.
    SizeMismatch,
}

impl HeaderError {
    /// The message shown for the refusal.
    pub fn message(&self) -> (text: &'static str)
        ensures
            text@ == match *self {
                HeaderError::Invalid => "文件数据流头无效"@,
                HeaderError::Path(PathError::Invalid) => "文件清单路径无效"@,
                HeaderError::Path(PathError::TooDeep) => "文件清单路径层级过深"@,
                HeaderError::Path(PathError::Escaping) => "文件清单包含路径逃逸"@,
                HeaderError::Path(PathError::NotNormal) => "文件相对路径无效"@,
                HeaderError::DuplicatePath => "文件清单包含重复路径"@,
                HeaderError::DirectoryFields => "目录清单字段无效"@,
                HeaderError::HashFormat => "文件哈希格式无效"@,
                HeaderError::SizeOverflow => "文件总大小溢出"@,
                HeaderError::SizeMismatch => "文件清单总大小不匹配"@,
            },
    {
        match self {
            HeaderError::Invalid => "文件数据流头无效",
            HeaderError::Path(p) => p.message(),
            HeaderError::DuplicatePath => "文件清单包含重复路径",
            HeaderError::DirectoryFields => "目录清单字段无效",
            HeaderError::HashFormat => "文件哈希格式无效",
            HeaderError::SizeOverflow => "文件总大小溢出",
            HeaderError::SizeMismatch => "文件清单总大小不匹配",
        }
    }
}

/// An ASCII hexadecimal digit.
pub open spec fn is_hex_byte(b: u8) -> bool {
    (48 <= b <= 57) || (65 <= b <= 70) || (97 <= b <= 102)
}

/// A SHA-256 hash as text: 64 hexadecimal digits.
pub open spec fn hash_text_valid(sha: Seq<char>) -> bool {
    encode_utf8(sha).len() == 64 && forall|i: int| 0 <= i < 64 ==> is_hex_byte(#[trigger] encode_utf8(sha)[i])
}

/// Checks the entries in order: the sum of the file sizes so far, or the
/// first entry's fault.
pub open spec fn entries_result(entries: Seq<FileEntry>) -> Result<u64, HeaderError>
    decreases entries.len(),
{
    if entries.len() == 0 {
        Ok(0)
    } else {
        match entries_result(entries.drop_last()) {
            Err(e) => Err(e),
            Ok(sum) => {
                let e = entries.last();
                match relative_path_result(e.relative_path@) {
                    Err(p) => Err(HeaderError::Path(p)),
                    Ok(_) => if exists|j: int| 0 <= j < entries.len() - 1 && (#[trigger] entries[j]).relative_path@ == e.relative_path@ {
                        Err(HeaderError::DuplicatePath)
                    } else if e.is_directory {
                        if e.size != 0 || e.sha256@.len() != 0 {
                            Err(HeaderError::DirectoryFields)
                        } else {
                            Ok(sum)
                        }
                    } else if !hash_text_valid(e.sha256@) {
                        Err(HeaderError::HashFormat)
                    } else if sum + e.size > u64::MAX {
                        Err(HeaderError::SizeOverflow)
                    } else {
                        Ok((sum + e.size) as u64)
                    },
                }
            },
        }
    }
}

/// What `validate_file_header` decides.
pub open spec fn header_result(h: FileBlobHeader) -> Result<(), HeaderError> {
    if h.schema_version != 1 || h.entries@.len() == 0 || h.entries@.len() > MAX_FILE_ENTRIES
        || h.total_size > MAX_FILE_BUNDLE_BYTES {
        Err(HeaderError::Invalid)
    } else {
        match entries_result(h.entries@) {
            Err(e) => Err(e),
            Ok(sum) => if sum != h.total_size {
                Err(HeaderError::SizeMismatch)
            } else {
                Ok(())
            },
        }
    }
}

fn hash_text_ok(sha: &str) -> (ok: bool)
    ensures
        ok == hash_text_valid(sha@),
{
    let bytes = sha.as_bytes();
    if bytes.len() != 64 {
        return false;
    }
    let mut i: usize = 0;
    while i < 64
        invariant
            bytes@ == encode_utf8(sha@),
            bytes@.len() == 64,
            i <= 64,
            forall|j: int| 0 <= j < i ==> is_hex_byte(#[trigger] bytes@[j]),
        decreases 64 - i,
    {
        let b = bytes[i];
        if !((48 <= b && b <= 57) || (65 <= b && b <= 70) || (97 <= b && b <= 102)) {
            return false;
        }
        i = i + 1;
    }
    true
}

/// Checks a received bundle header: schema 1, between 1 and 512 entries, at
/// most 256 MiB in total; every entry's path safe and unique, directories
/// without size or hash, files with a 64-digit hexadecimal hash, and the
/// file sizes adding up, without overflow, to the stated total.
pub fn validate_file_header(header: &FileBlobHeader) -> (result: Result<(), HeaderError>)
    ensures
        result == header_result(*header),
{
    if header.schema_version != 1 || header.entries.len() == 0 || header.entries.len() > MAX_FILE_ENTRIES
        || header.total_size > MAX_FILE_BUNDLE_BYTES {
        return Err(HeaderError::Invalid);
    }
    let ghost entries = header.entries@;
    let mut paths: Vec<String> = Vec::new();
    let mut total: u64 = 0;
    let mut i: usize = 0;
    while i < header.entries.len()
        invariant
            !(header.schema_version != 1 || header.entries@.len() == 0 || header.entries@.len() > MAX_FILE_ENTRIES
                || header.total_size > MAX_FILE_BUNDLE_BYTES),
            i <= entries.len(),
            entries == header.entries@,
            entries_result(entries.take(i as int)) == Ok::<u64, HeaderError>(total),
            paths@.len() == i,
            forall|j: int| 0 <= j < i ==> #[trigger] paths@[j]@ == entries[j].relative_path@,
        decreases entries.len() - i,
    {
        let entry = &header.entries[i];
        proof {
            assert(entries.take(i + 1).drop_last() =~= entries.take(i as int));
            assert(entries.take(i + 1).last() == entry);
        }
        match safe_relative_path(entry.relative_path.as_str()) {
            Err(e) => {
                proof {
                    lemma_entries_error_stays(entries, i + 1);
                }
                return Err(HeaderError::Path(e));
            },
            Ok(_) => {},
        }
        let duplicate = contains_name(&paths, entry.relative_path.as_str());
        proof {
            let prefix = entries.take(i + 1);
            assert(duplicate == exists|j: int| 0 <= j < prefix.len() - 1 && (#[trigger] prefix[j]).relative_path@ == entry.relative_path@) by {
                if duplicate {
                    let j = choose|j: int| 0 <= j < paths.deep_view().len() && paths.deep_view()[j] == entry.relative_path@;
                    assert(prefix[j] == entries[j]);
                }
                if exists|j: int| 0 <= j < prefix.len() - 1 && (#[trigger] prefix[j]).relative_path@ == entry.relative_path@ {
                    let j = choose|j: int| 0 <= j < prefix.len() - 1 && (#[trigger] prefix[j]).relative_path@ == entry.relative_path@;
                    assert(prefix[j] == entries[j]);
                    assert(paths.deep_view()[j] == entry.relative_path@);
                }
            }
        }
        if duplicate {
            proof {
                lemma_entries_error_stays(entries, i + 1);
            }
            return Err(HeaderError::DuplicatePath);
        }
        paths.push(entry.relative_path.clone());
        if entry.is_directory {
            if entry.size != 0 || !entry.sha256.as_str().is_empty() {
                proof {
                    lemma_entries_error_stays(entries, i + 1);
                }
                return Err(HeaderError::DirectoryFields);
            }
        } else {
            if !hash_text_ok(entry.sha256.as_str()) {
                proof {
                    lemma_entries_error_stays(entries, i + 1);
                }
                return Err(HeaderError::HashFormat);
            }
            match total.checked_add(entry.size) {
                Some(sum) => {
                    total = sum;
                },
                None => {
                    proof {
                        lemma_entries_error_stays(entries, i + 1);
                    }
                    return Err(HeaderError::SizeOverflow);
                },
            }
        }
        i = i + 1;
    }
    proof {
        assert(entries.take(entries.len() as int) =~= entries);
    }
    if total != header.total_size {
        return Err(HeaderError::SizeMismatch);
    }
    Ok(())
}

proof fn lemma_entries_error_stays(entries: Seq<FileEntry>, k: int)
    requires
        0 <= k <= entries.len(),
        entries_result(entries.take(k)) is Err,
    ensures
        entries_result(entries) == entries_result(entries.take(k)),
    decreases entries.len() - k,
{
    if k == entries.len() {
        assert(entries.take(k) =~= entries);
    } else {
        assert(entries.take(k + 1).drop_last() =~= entries.take(k));
        lemma_entries_error_stays(entries, k + 1);
    }
}

} // verus!
