use vstd::prelude::*;
use vstd::string::{StrSliceExecFns, StringExecFns};

verus! {

/// Extension given to the annotated copy of an image.
pub const SHAPES_IMAGE_EXTENSION: &'static str = "shapes.png";

/// Extension given to the backup copy of a map file.
pub const MAPFILE_BACKUP_EXTENSION: &'static str = "dungeondraft_map.bak";

/// Index of the last `c` in `s`, or -1 when `s` holds none.
pub open spec fn last_index_of(s: Seq<char>, c: char) -> int
    decreases s.len(),
{
    if s.len() == 0 {
        -1
    } else if s.last() == c {
        s.len() - 1
    } else {
        last_index_of(s.drop_last(), c)
    }
}

/// The path `s` without its trailing separators and the `.` components that follow one.
pub open spec fn trim_end(s: Seq<char>) -> Seq<char>
    decreases s.len(),
{
    if s.len() > 0 && s.last() == '/' {
        trim_end(s.drop_last())
    } else if s.len() >= 2 && s.last() == '.' && s[s.len() - 2] == '/' {
        trim_end(s.drop_last())
    } else {
        s
    }
}

/// Where the last component of the path `s` starts.
pub open spec fn file_name_start(s: Seq<char>) -> int {
    last_index_of(trim_end(s), '/') + 1
}

/// The last component of the path `s`, once trailing separators and `.` components are
/// skipped.
pub open spec fn file_name(s: Seq<char>) -> Seq<char> {
    let t = trim_end(s);
    t.subrange(file_name_start(s), t.len() as int)
}

/// The path `s` names a file: its last component is neither empty, `.` nor `..`.
pub open spec fn has_file_name(s: Seq<char>) -> bool {
    let f = file_name(s);
    f.len() > 0 && f != seq!['.'] && f != seq!['.', '.']
}

/// Where the stem of the file name of `s` ends: at the last dot of the file name, unless
/// that dot begins it; at the end of the file name when there is no extension.
pub open spec fn stem_end(s: Seq<char>) -> int {
    let t = trim_end(s);
    let d = last_index_of(t, '.');
    if d > file_name_start(s) {
        d
    } else {
        t.len() as int
    }
}

/// The path `s` cut right after the stem of its file name, followed by `.` and `ext`;
/// `s` itself when it names no file.
pub open spec fn replace_extension(s: Seq<char>, ext: Seq<char>) -> Seq<char> {
    if has_file_name(s) {
        s.subrange(0, stem_end(s)) + seq!['.'] + ext
    } else {
        s
    }
}

proof fn lemma_last_index_of_bounds(s: Seq<char>, c: char)
    ensures
        -1 <= last_index_of(s, c) < s.len(),
        last_index_of(s, c) >= 0 ==> s[last_index_of(s, c)] == c,
        forall|k: int| last_index_of(s, c) < k < s.len() ==> #[trigger] s[k] != c,
    decreases s.len(),
{
    if s.len() > 0 && s.last() != c {
        let u = s.drop_last();
        lemma_last_index_of_bounds(u, c);
        assert forall|k: int| last_index_of(s, c) < k < s.len() implies #[trigger] s[k] != c by {
            if k < u.len() {
                assert(s[k] == u[k]);
            }
        }
    }
}

/// Index of the last `c` among the first `end` characters of `s`, if any.
fn last_index(s: &str, c: char, end: usize) -> (r: Option<usize>)
    requires
        end <= s@.len(),
    ensures
        match r {
            Some(i) => i == last_index_of(s@.take(end as int), c),
            None => last_index_of(s@.take(end as int), c) == -1,
        },
{
    let mut i = end;
    while i > 0
        invariant
            i <= end,
            end <= s@.len(),
            last_index_of(s@.take(end as int), c) == last_index_of(s@.take(i as int), c),
        decreases i,
    {
        let ghost t = s@.take(i as int);
        if s.get_char(i - 1) == c {
            return Some(i - 1);
        }
        assert(t.drop_last() =~= s@.take(i - 1));
        i = i - 1;
    }
    None
}

/// Length of `trim_end(s@)`, which is a prefix of `s@`.
fn trimmed_len(s: &str) -> (r: usize)
    ensures
        r <= s@.len(),
        trim_end(s@) == s@.take(r as int),
{
    let mut e = s.unicode_len();
    assert(s@.take(e as int) =~= s@);
    while e > 0
        invariant
            e <= s@.len(),
            trim_end(s@) == trim_end(s@.take(e as int)),
        ensures
            trim_end(s@.take(e as int)) == s@.take(e as int),
        decreases e,
    {
        let ghost t = s@.take(e as int);
        assert(t.drop_last() =~= s@.take(e - 1));
        let last = s.get_char(e - 1);
        if last == '/' {
            e = e - 1;
        } else if last == '.' && e >= 2 && s.get_char(e - 2) == '/' {
            e = e - 1;
        } else {
            assert(t.last() == last);
            assert(e >= 2 ==> t[e - 2] == s@[e - 2]);
            break;
        }
    }
    e
}

/// The path `path` with its final extension, if any, replaced by `ext`.
fn with_extension(path: &str, ext: &str) -> (r: String)
    ensures
        r@ == replace_extension(path@, ext@),
{
    let ghost s = path@;
    let n = trimmed_len(path);
    let ghost t = trim_end(s);
    proof {
        lemma_last_index_of_bounds(t, '/');
        lemma_last_index_of_bounds(t, '.');
        assert(t.len() == n);
    }
    let start = match last_index(path, '/', n) {
        Some(i) => i + 1,
        None => 0,
    };
    assert(start == file_name_start(s));
    let ghost f = file_name(s);
    assert(forall|k: int| 0 <= k < n ==> #[trigger] t[k] == s[k]);
    if start == n {
        assert(f.len() == 0);
        return path.to_owned();
    }
    if n - start == 1 && path.get_char(start) == '.' {
        assert(f =~= seq!['.']);
        return path.to_owned();
    }
    if n - start == 2 && path.get_char(start) == '.' && path.get_char(start + 1) == '.' {
        assert(f =~= seq!['.', '.']);
        return path.to_owned();
    }
    assert(f.len() == 1 ==> f[0] == s[start as int]);
    assert(f.len() == 2 ==> f[0] == s[start as int] && f[1] == s[start + 1]);
    assert(f != seq!['.']) by {
        if f.len() == 1 {
            assert(seq!['.'][0] == '.');
        }
    }
    assert(f != seq!['.', '.']) by {
        if f.len() == 2 {
            assert(seq!['.', '.'][0] == '.' && seq!['.', '.'][1] == '.');
        }
    }
    let end = match last_index(path, '.', n) {
        Some(d) => if d > start {
            d
        } else {
            n
        },
        None => n,
    };
    assert(end == stem_end(s));
    let mut r = String::from_str(path.substring_char(0, end));
    proof {
        reveal_strlit(".");
    }
    r.append(".");
    r.append(ext);
    assert(r@ =~= replace_extension(s, ext@));
    r
}

/// The path of the annotated copy of the image at `image_path`: the path cut right after
/// the stem of its file name, followed by `.shapes.png`.
pub fn shapes_image_path(image_path: &str) -> (r: String)
    ensures
        r@ == replace_extension(image_path@, SHAPES_IMAGE_EXTENSION@),
{
    with_extension(image_path, SHAPES_IMAGE_EXTENSION)
}

/// The path of the backup copy of the map file at `original_path`: the path cut right
/// after the stem of its file name, followed by `.dungeondraft_map.bak`.
pub fn get_backup_path(original_path: &str) -> (r: String)
    ensures
        r@ == replace_extension(original_path@, MAPFILE_BACKUP_EXTENSION@),
{
    with_extension(original_path, MAPFILE_BACKUP_EXTENSION)
}

proof fn lemma_trim_end_tail(s: Seq<char>)
    ensures
        trim_end(s).len() <= s.len(),
        forall|k: int| 0 <= k < trim_end(s).len() ==> #[trigger] trim_end(s)[k] == s[k],
        forall|k: int| trim_end(s).len() <= k < s.len() ==> #[trigger] s[k] == '/' || s[k] == '.',
    decreases s.len(),
{
    if s.len() > 0 && s.last() == '/' || s.len() >= 2 && s.last() == '.' && s[s.len() - 2] == '/' {
        let u = s.drop_last();
        lemma_trim_end_tail(u);
        assert forall|k: int| trim_end(s).len() <= k < s.len() implies #[trigger] s[k] == '/'
            || s[k] == '.' by {
            if k < u.len() {
                assert(s[k] == u[k]);
            }
        }
        assert forall|k: int| 0 <= k < trim_end(s).len() implies #[trigger] trim_end(s)[k]
            == s[k] by {
            assert(s[k] == u[k]);
        }
    }
}

/// A path that names a file is never its own result: an extension that holds a dot and
/// neither begins nor ends with `/` or `.` cannot already stand at its end.
pub proof fn lemma_replaced_path_differs(s: Seq<char>, ext: Seq<char>)
    requires
        has_file_name(s),
        ext.contains('.'),
        ext.len() > 0,
        ext[0] != '/' && ext[0] != '.',
        ext.last() != '/' && ext.last() != '.',
    ensures
        replace_extension(s, ext) != s,
{
    let t = trim_end(s);
    let r = replace_extension(s, ext);
    let e = stem_end(s);
    lemma_trim_end_tail(s);
    lemma_last_index_of_bounds(t, '.');
    lemma_last_index_of_bounds(t, '/');
    if r == s {
        assert(r.len() == e + 1 + ext.len());
        assert(forall|k: int| 0 <= k < ext.len() ==> #[trigger] ext[k] == r[e + 1 + k]);
        if e == t.len() {
            assert(s[e + 1] == ext[0]);
        } else {
            assert(s[s.len() - 1] == ext.last());
            assert(t.len() == s.len());
            let j = choose|j: int| 0 <= j < ext.len() && ext[j] == '.';
            assert(t[e + 1 + j] == '.');
        }
    }
}

/// The backup path of a path that names a file is never that path itself.
pub proof fn lemma_backup_path_differs(s: Seq<char>)
    requires
        has_file_name(s),
    ensures
        replace_extension(s, MAPFILE_BACKUP_EXTENSION@) != s,
{
    let ext = MAPFILE_BACKUP_EXTENSION@;
    reveal_strlit("dungeondraft_map.bak");
    assert(ext[16] == '.');
    lemma_replaced_path_differs(s, ext);
}

} // verus!
