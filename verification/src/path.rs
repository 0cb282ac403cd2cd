//! Paths as text: the file name of a path, its extension, and the path of a
//! compressed sibling. Components are separated by `/`. An empty component
//! and a component `.` count for nothing at the end of a path, and for
//! nothing between a directory and the name after it.

use vstd::prelude::*;
use vstd::string::StringExecFns;
use crate::algorithm::Algorithm;

verus! {

/// The position of the last `c` in `s`, or -1 if it holds none.
pub open spec fn rfind(s: Seq<char>, c: char) -> int
    decreases s.len(),
{
    if s.len() == 0 {
        -1
    } else if s.last() == c {
        s.len() - 1
    } else {
        rfind(s.drop_last(), c)
    }
}

/// Where the components of `path` begin: after a leading `/`, or after a
/// leading `.` that is a component of its own, else at the start.
pub open spec fn body_start(path: Seq<char>) -> int {
    if path.len() > 0 && (path[0] == '/' || (path[0] == '.' && (path.len() == 1 || path[1]
        == '/'))) {
        1
    } else {
        0
    }
}

/// The end of `path[..end]` once every `/` and every component `.` at its
/// end is dropped, never going below `start`. A `.` is a component where a
/// `/` stands before it or where it begins at `start`.
pub open spec fn trim_from(path: Seq<char>, start: int, end: int) -> int
    decreases end,
{
    if end <= start || end <= 0 || end > path.len() {
        end
    } else if path[end - 1] == '/' {
        trim_from(path, start, end - 1)
    } else if path[end - 1] == '.' && end - 1 == start {
        start
    } else if path[end - 1] == '.' && end >= 2 && end - 2 >= start && path[end - 2] == '/' {
        trim_from(path, start, end - 2)
    } else {
        end
    }
}

/// The start of the component of `path` that ends at `end`: the position
/// after the last `/` before `end`, never going below `start`.
pub open spec fn component_from(path: Seq<char>, start: int, end: int) -> int
    decreases end,
{
    if end <= start || end <= 0 || end > path.len() || path[end - 1] == '/' {
        end
    } else {
        component_from(path, start, end - 1)
    }
}

/// The end of the last component of `path`.
pub open spec fn name_end(path: Seq<char>) -> int {
    trim_from(path, body_start(path), path.len() as int)
}

/// The start of the last component of `path`.
pub open spec fn name_begin(path: Seq<char>) -> int {
    component_from(path, body_start(path), name_end(path))
}

/// The last component of `path`: what stands after its last `/`, a `/` or
/// `/.` at the end of the path left aside.
pub open spec fn last_component(path: Seq<char>) -> Seq<char> {
    path.subrange(name_begin(path), name_end(path))
}

/// The end of the directory of `path`: what stands before the last
/// component, without the `/` between them and without a `/` or `/.` at its end.
pub open spec fn directory_end(path: Seq<char>) -> int {
    trim_from(
        path,
        body_start(path),
        if name_begin(path) > body_start(path) {
            name_begin(path) - 1
        } else {
            name_begin(path)
        },
    )
}

/// The directory of `path`.
pub open spec fn directory(path: Seq<char>) -> Seq<char> {
    path.take(directory_end(path))
}

/// Whether `name` can name a file: it is not empty and neither `.` nor `..`.
pub open spec fn names_file(name: Seq<char>) -> bool {
    name.len() > 0 && name != seq!['.'] && name != seq!['.', '.']
}

/// The file name of `path`: its last component, if that can name a file.
pub open spec fn file_name(path: Seq<char>) -> Option<Seq<char>> {
    if names_file(last_component(path)) {
        Some(last_component(path))
    } else {
        None
    }
}

/// The extension of `path`: what stands after the last `.` of its file
/// name. There is none without a file name, without a `.`, or where the
/// only `.` begins the name.
pub open spec fn extension(path: Seq<char>) -> Option<Seq<char>> {
    match file_name(path) {
        None => None,
        Some(name) => if rfind(name, '.') <= 0 {
            None
        } else {
            Some(name.skip(rfind(name, '.') + 1))
        },
    }
}

/// The path of the file `file` in the directory `dir`.
pub open spec fn join(dir: Seq<char>, file: Seq<char>) -> Seq<char> {
    if dir.len() == 0 {
        file
    } else if dir.last() == '/' {
        dir + file
    } else {
        dir + seq!['/'] + file
    }
}

/// The path of the sibling that `algorithm` writes for `path`: in the
/// directory of `path`, the file name followed by the codec's suffix. There
/// is none for a path without a file name.
pub open spec fn sibling(path: Seq<char>, algorithm: Algorithm) -> Option<Seq<char>> {
    match file_name(path) {
        Some(name) => Some(join(directory(path), name + algorithm.suffix())),
        None => None,
    }
}

/// Whether `path` is written plainly: it has a file name, and its directory
/// and its file name joined are the path itself.
pub open spec fn is_plain(path: Seq<char>) -> bool {
    file_name(path) matches Some(name) && join(directory(path), name) == path
}

/// `rfind` is the one position that holds `c` and has no `c` after it.
pub proof fn lemma_rfind_is(s: Seq<char>, c: char, k: int)
    requires
        -1 <= k < s.len(),
        forall|j: int| k < j < s.len() ==> s[j] != c,
        k >= 0 ==> s[k] == c,
    ensures
        rfind(s, c) == k,
    decreases s.len(),
{
    if s.len() != 0 && s.last() != c {
        lemma_rfind_is(s.drop_last(), c, k);
    }
}

/// `trim_from` and `component_from` stay between `start` and `end`; a
/// trimmed end is trimmed; and a component holds no `/`.
pub proof fn lemma_spans(path: Seq<char>, start: int, end: int)
    requires
        0 <= start <= end <= path.len(),
    ensures
        start <= trim_from(path, start, end) <= end,
        trim_from(path, start, trim_from(path, start, end)) == trim_from(path, start, end),
        start <= component_from(path, start, end) <= end,
        forall|j: int| component_from(path, start, end) <= j < end ==> path[j] != '/',
    decreases end,
{
    if end > start {
        lemma_spans(path, start, end - 1);
        if end - 2 >= start {
            lemma_spans(path, start, end - 2);
        }
    }
}

/// `trim_from` and `component_from` look at nothing from `end` on.
pub proof fn lemma_spans_of_prefix(path: Seq<char>, other: Seq<char>, start: int, end: int)
    requires
        0 <= start <= end <= path.len(),
        end <= other.len(),
        forall|j: int| 0 <= j < end ==> path[j] == other[j],
    ensures
        trim_from(path, start, end) == trim_from(other, start, end),
        component_from(path, start, end) == component_from(other, start, end),
    decreases end,
{
    if end > start {
        lemma_spans_of_prefix(path, other, start, end - 1);
        if end - 2 >= start {
            lemma_spans_of_prefix(path, other, start, end - 2);
        }
    }
}

/// A component that holds no `/` begins where the `/` before it ends, or at `start`.
pub proof fn lemma_component_begins(path: Seq<char>, start: int, begin: int, end: int)
    requires
        0 <= start <= begin <= end <= path.len(),
        forall|j: int| begin <= j < end ==> path[j] != '/',
        begin == start || path[begin - 1] == '/',
    ensures
        component_from(path, start, end) == begin,
    decreases end,
{
    if end > begin {
        lemma_component_begins(path, start, begin, end - 1);
    }
}

/// A sibling stands in the directory of its source, its file name is the
/// source's file name followed by the codec's suffix, and it is never the
/// source itself.
pub proof fn lemma_sibling_keeps_directory(path: Seq<char>, algorithm: Algorithm)
    requires
        file_name(path) is Some,
    ensures
        sibling(path, algorithm) matches Some(dst) && {
            &&& directory(dst) == directory(path)
            &&& file_name(dst) == Some(file_name(path)->0 + algorithm.suffix())
            &&& dst != path
        },
{
    let b = body_start(path);
    let name = file_name(path)->0;
    let file = name + algorithm.suffix();
    let dir = directory(path);
    let dst = join(dir, file);
    let len = path.len() as int;
    lemma_spans(path, b, len);
    let ne = name_end(path);
    lemma_spans(path, b, ne);
    let nb = name_begin(path);
    let cut = if nb > b {
        nb - 1
    } else {
        nb
    };
    lemma_spans(path, b, cut);
    let de = directory_end(path);
    // The file holds no `/`, and ends in a letter.
    assert forall|j: int| 0 <= j < file.len() implies file[j] != '/' by {
        if j < name.len() {
            assert(file[j] == path[nb + j]);
        } else {
            assert(file[j] == algorithm.suffix()[j - name.len()]);
        }
    }
    let tail = file[file.len() - 1];
    assert(tail == algorithm.suffix()[algorithm.suffix().len() - 1]);
    assert(tail != '/' && tail != '.');
    // Where the file begins in the sibling.
    let k = dst.len() - file.len();
    assert(k == 0 || k == de || k == de + 1);
    assert forall|j: int| 0 <= j < de implies dst[j] == path[j] by {}
    assert forall|j: int| k <= j < dst.len() implies dst[j] == file[j - k] by {}
    if de > b && path[de - 1] == '/' {
        assert(trim_from(path, b, de) == trim_from(path, b, de - 1));
        lemma_spans(path, b, de - 1);
    }
    if de == 1 && b == 0 && path[0] == '.' {
        assert(trim_from(path, b, de) == 0);
    }
    assert(body_start(dst) == b);
    assert(trim_from(dst, b, dst.len() as int) == dst.len());
    if k > 0 {
        assert(k == b || dst[k - 1] == '/');
    }
    lemma_component_begins(dst, b, k, dst.len() as int);
    assert(last_component(dst) =~= file);
    assert(file.len() >= 4);
    if k > b {
        lemma_spans_of_prefix(path, dst, b, de);
    }
    assert(directory_end(dst) == de);
    assert(directory(dst) =~= dir);
    assert(file.len() != name.len());
}

/// The sibling of a plainly written path is the path followed by the codec's suffix.
pub proof fn lemma_sibling_of_plain_path(path: Seq<char>, algorithm: Algorithm)
    requires
        is_plain(path),
    ensures
        sibling(path, algorithm) == Some(path + algorithm.suffix()),
{
    let name = file_name(path)->0;
    let dir = directory(path);
    assert(join(dir, name + algorithm.suffix()) =~= join(dir, name) + algorithm.suffix());
}

/// The siblings of one source differ from codec to codec.
pub proof fn lemma_siblings_distinct(path: Seq<char>, a: Algorithm, b: Algorithm)
    requires
        file_name(path) is Some,
        a != b,
    ensures
        sibling(path, a) != sibling(path, b),
{
    let name = file_name(path)->0;
    let dir = directory(path);
    let fa = name + a.suffix();
    let fb = name + b.suffix();
    let n = name.len() as int;
    assert(fa[n + 1] == a.suffix()[1] && fb[n + 1] == b.suffix()[1]);
    assert(fa[n + 2] == a.suffix()[2] && fb[n + 2] == b.suffix()[2]);
    let k = join(dir, fa).len() - fa.len();
    assert(join(dir, fa).skip(k) =~= fa);
    assert(join(dir, fb).skip(join(dir, fb).len() - fb.len()) =~= fb);
}

/// Returns where the components of `path` begin.
pub fn body_begin(path: &str) -> (out: usize)
    ensures
        out == body_start(path@),
        out <= path@.len(),
{
    let n = path.unicode_len();
    if n == 0 {
        return 0;
    }
    let first = path.get_char(0);
    if first == '/' {
        1
    } else if first == '.' && (n == 1 || path.get_char(1) == '/') {
        1
    } else {
        0
    }
}

/// Returns the end of `path[..end]` once every `/` and `/.` at its end is
/// dropped, never going below `start`.
pub fn trim_back(path: &str, start: usize, end: usize) -> (out: usize)
    requires
        start <= end <= path@.len(),
    ensures
        out == trim_from(path@, start as int, end as int),
        start <= out <= end,
{
    let mut e: usize = end;
    while e > start
        invariant
            start <= e <= end <= path@.len(),
            trim_from(path@, start as int, e as int) == trim_from(path@, start as int, end as int),
        decreases e,
    {
        let last = path.get_char(e - 1);
        if last == '/' {
            e = e - 1;
        } else if last == '.' && e - 1 == start {
            e = start;
        } else if last == '.' && e - start >= 2 && path.get_char(e - 2) == '/' {
            e = e - 2;
        } else {
            return e;
        }
    }
    e
}

/// Returns the start of the component of `path` that ends at `end`, never
/// going below `start`.
pub fn component_back(path: &str, start: usize, end: usize) -> (out: usize)
    requires
        start <= end <= path@.len(),
    ensures
        out == component_from(path@, start as int, end as int),
        start <= out <= end,
{
    let mut i: usize = end;
    while i > start && path.get_char(i - 1) != '/'
        invariant
            start <= i <= end <= path@.len(),
            component_from(path@, start as int, i as int) == component_from(
                path@,
                start as int,
                end as int,
            ),
        decreases i,
    {
        i = i - 1;
    }
    i
}

/// Returns the start and the end of the last component of `path`.
pub fn name_span(path: &str) -> (out: (usize, usize))
    ensures
        out.0 == name_begin(path@),
        out.1 == name_end(path@),
        body_start(path@) <= out.0 <= out.1 <= path@.len(),
{
    let start = body_begin(path);
    let end = trim_back(path, start, path.unicode_len());
    let begin = component_back(path, start, end);
    (begin, end)
}

/// Tells whether `path` has a file name.
pub fn has_file_name(path: &str) -> (out: bool)
    ensures
        out == file_name(path@) is Some,
{
    let (begin, end) = name_span(path);
    let len = end - begin;
    let ghost name = last_component(path@);
    assert(name.len() == len);
    if len == 0 {
        false
    } else if len == 1 {
        let first = path.get_char(begin);
        assert(first == name[0]);
        if first == '.' {
            assert(name =~= seq!['.']);
            false
        } else {
            true
        }
    } else if len == 2 {
        let first = path.get_char(begin);
        let second = path.get_char(begin + 1);
        assert(first == name[0] && second == name[1]);
        if first == '.' && second == '.' {
            assert(name =~= seq!['.', '.']);
            false
        } else {
            true
        }
    } else {
        true
    }
}

/// Returns the file name of `path`, if it has one.
pub fn file_name_of(path: &str) -> (out: Option<String>)
    ensures
        match out {
            Some(name) => file_name(path@) == Some(name@),
            None => file_name(path@) is None,
        },
{
    if has_file_name(path) {
        let (begin, end) = name_span(path);
        Some(path.substring_char(begin, end).to_owned())
    } else {
        None
    }
}

/// Returns the directory of `path`.
pub fn directory_of(path: &str) -> (out: String)
    ensures
        out@ == directory(path@),
{
    let start = body_begin(path);
    let (begin, _) = name_span(path);
    let cut = if begin > start {
        begin - 1
    } else {
        begin
    };
    let end = trim_back(path, start, cut);
    let out = path.substring_char(0, end).to_owned();
    assert(out@ =~= directory(path@));
    out
}

/// Returns the extension of `path`, if it has one.
pub fn extension_of(path: &str) -> (out: Option<String>)
    ensures
        match out {
            Some(ext) => extension(path@) == Some(ext@),
            None => extension(path@) is None,
        },
{
    if !has_file_name(path) {
        return None;
    }
    let (begin, end) = name_span(path);
    let ghost name = last_component(path@);
    let mut i: usize = end;
    while i > begin && path.get_char(i - 1) != '.'
        invariant
            begin <= i <= end <= path@.len(),
            name == path@.subrange(begin as int, end as int),
            forall|j: int| i - begin <= j < name.len() ==> name[j] != '.',
        decreases i,
    {
        i = i - 1;
    }
    proof {
        lemma_rfind_is(name, '.', i - begin - 1);
    }
    if i <= begin + 1 {
        None
    } else {
        let ext = path.substring_char(i, end);
        assert(ext@ =~= name.skip(i - begin));
        Some(ext.to_owned())
    }
}

/// Returns the path of the sibling that `algorithm` writes for `path`, or
/// nothing for a path without a file name.
pub fn destination_path(path: &str, algorithm: Algorithm) -> (out: Option<String>)
    ensures
        match out {
            Some(dst) => sibling(path@, algorithm) == Some(dst@),
            None => sibling(path@, algorithm) is None,
        },
{
    match file_name_of(path) {
        None => None,
        Some(name) => {
            let dir = directory_of(path);
            let n = dir.as_str().unicode_len();
            proof {
                reveal_strlit("/");
            }
            let base = if n == 0 {
                dir
            } else if dir.as_str().get_char(n - 1) == '/' {
                dir
            } else {
                dir.concat("/")
            };
            let out = base.concat(name.as_str()).concat(algorithm.extension());
            assert(out@ =~= join(directory(path@), name@ + algorithm.suffix()));
            Some(out)
        },
    }
}

} // verus!
