//! Read-only introspection of a single path string.
//!
//! A `FileUtils` value wraps the path of a flagged file and decomposes it
//! into its identity attributes: full file name, stem (the name without its
//! final extension), and extension. The decomposition is pure string logic
//! over the path's characters, with `/` and `\` accepted as directory
//! separators. The file's size is observed by the embedding program and
//! handed in as a plain value; from it and the name components the composite
//! tag is built that seeds randomized quarantine names.

use vstd::prelude::*;

verus! {

/// A directory separator character.
pub open spec fn is_sep(c: char) -> bool {
    c == '/' || c == '\\'
}

/// The index at which the final path component starts: just past the last
/// separator, or zero if the path contains none.
pub open spec fn name_start(p: Seq<char>) -> int
    decreases p.len(),
{
    if p.len() == 0 {
        0
    } else if is_sep(p.last()) {
        p.len() as int
    } else {
        name_start(p.drop_last())
    }
}

/// The final path component, possibly empty (for an empty path or one that
/// ends in a separator).
pub open spec fn raw_name(p: Seq<char>) -> Seq<char> {
    p.subrange(name_start(p), p.len() as int)
}

/// Whether a final component denotes the current or the parent directory
/// rather than a file name.
pub open spec fn is_cur_or_parent(t: Seq<char>) -> bool {
    (t.len() == 1 && t[0] == '.') || (t.len() == 2 && t[0] == '.' && t[1] == '.')
}

/// The file name of a path: its final component, absent when that component
/// is empty or denotes the current or parent directory.
pub open spec fn file_name_spec(p: Seq<char>) -> Option<Seq<char>> {
    if raw_name(p).len() == 0 || is_cur_or_parent(raw_name(p)) {
        None
    } else {
        Some(raw_name(p))
    }
}

/// The index of the last `.` within a file name, or -1 if it has none.
pub open spec fn last_dot(n: Seq<char>) -> int
    decreases n.len(),
{
    if n.len() == 0 {
        -1
    } else if n.last() == '.' {
        n.len() - 1
    } else {
        last_dot(n.drop_last())
    }
}

/// The stem of a file name: the portion before the last `.`, or the whole
/// name when there is no `.` or when the only `.` is the leading character
/// (a dotfile has no extension).
pub open spec fn stem_of_name(n: Seq<char>) -> Seq<char> {
    if last_dot(n) <= 0 {
        n
    } else {
        n.subrange(0, last_dot(n))
    }
}

/// The extension of a file name: the portion after the last `.`, absent when
/// there is no `.` or when the only `.` is the leading character.
pub open spec fn extension_of_name(n: Seq<char>) -> Option<Seq<char>> {
    if last_dot(n) <= 0 {
        None
    } else {
        Some(n.subrange(last_dot(n) + 1, n.len() as int))
    }
}

/// The stem of a path: the stem of its file name, absent when the path has
/// no file name.
pub open spec fn stem_spec(p: Seq<char>) -> Option<Seq<char>> {
    match file_name_spec(p) {
        Some(n) => Some(stem_of_name(n)),
        None => None,
    }
}

/// The extension of a path, absent when the path has no file name or the
/// file name has no extension.
pub open spec fn extension_spec(p: Seq<char>) -> Option<Seq<char>> {
    match file_name_spec(p) {
        Some(n) => extension_of_name(n),
        None => None,
    }
}

/// The decimal digit character for a value below ten.
pub open spec fn dec_digit(d: int) -> char {
    if d == 0 {
        '0'
    } else if d == 1 {
        '1'
    } else if d == 2 {
        '2'
    } else if d == 3 {
        '3'
    } else if d == 4 {
        '4'
    } else if d == 5 {
        '5'
    } else if d == 6 {
        '6'
    } else if d == 7 {
        '7'
    } else if d == 8 {
        '8'
    } else {
        '9'
    }
}

/// The decimal representation of a non-negative integer, most significant
/// digit first, without leading zeros (zero itself is `"0"`).
pub open spec fn dec_rep(n: int) -> Seq<char>
    decreases n,
{
    if n < 10 {
        seq![dec_digit(n)]
    } else {
        dec_rep(n / 10).push(dec_digit(n % 10))
    }
}

/// The textual form of an observed size: its decimal representation, or the
/// empty string when the size could not be observed.
pub open spec fn size_text(size: Option<u64>) -> Seq<char> {
    match size {
        Some(v) => dec_rep(v as int),
        None => Seq::empty(),
    }
}

/// The stem component of the composite tag: the path's stem, or the empty
/// string when the path has none.
pub open spec fn stem_text(p: Seq<char>) -> Seq<char> {
    match stem_spec(p) {
        Some(n) => n,
        None => Seq::empty(),
    }
}

/// The extension component of the composite tag: the path's extension, or
/// the empty string when the path has none.
pub open spec fn extension_text(p: Seq<char>) -> Seq<char> {
    match extension_spec(p) {
        Some(e) => e,
        None => Seq::empty(),
    }
}

/// The composite tag of a path with an observed size: stem, size and
/// extension concatenated in that order with no separators, each replaced by
/// the empty string when unavailable. The tag is empty exactly when all
/// three components are unavailable at once.
pub open spec fn tag_spec(p: Seq<char>, size: Option<u64>) -> Seq<char> {
    stem_text(p) + size_text(size) + extension_text(p)
}

/// The one-character string holding a given decimal digit.
fn digit_str(d: u64) -> (c: &'static str)
    requires
        d < 10,
    ensures
        c@ =~= seq![dec_digit(d as int)],
{
    let digits: &str = "0123456789";
    proof {
        reveal_strlit("0123456789");
    }
    digits.substring_char(d as usize, d as usize + 1)
}

/// Formats an unsigned integer as decimal text.
pub fn u64_to_string(n: u64) -> (s: String)
    ensures
        s@ == dec_rep(n as int),
    decreases n,
{
    if n < 10 {
        let c = digit_str(n);
        let s = c.to_owned();
        proof {
            assert(s@ =~= dec_rep(n as int));
        }
        s
    } else {
        proof {
            assert(n / 10 < n) by (nonlinear_arith)
                requires
                    n >= 10,
            ;
        }
        let mut s = u64_to_string(n / 10);
        let c = digit_str(n % 10);
        s.append(c);
        proof {
            assert(s@ =~= dec_rep(n as int));
        }
        s
    }
}

/// How many times a byte value occurs in a byte sequence.
pub open spec fn count_of(s: Seq<u8>, b: u8) -> nat
    decreases s.len(),
{
    if s.len() == 0 {
        0
    } else {
        count_of(s.drop_last(), b) + if s.last() == b {
            1nat
        } else {
            0nat
        }
    }
}

/// A byte value occurs at most as often as the sequence is long.
pub proof fn lemma_count_le_len(s: Seq<u8>, b: u8)
    ensures
        count_of(s, b) <= s.len(),
    decreases s.len(),
{
    if s.len() > 0 {
        lemma_count_le_len(s.drop_last(), b);
    }
}

/// A stream that is empty or repeats a single byte value concentrates its
/// frequency table on at most one entry: the repeated value accounts for the
/// whole stream and every other byte value has count zero. (This is the
/// degenerate-distribution shape whose Shannon entropy is zero.)
pub proof fn lemma_uniform_stream_counts(s: Seq<u8>, b: u8)
    requires
        forall|i: int| 0 <= i < s.len() ==> s[i] == b,
    ensures
        count_of(s, b) == s.len(),
        forall|v: u8| v != b ==> count_of(s, v) == 0,
    decreases s.len(),
{
    if s.len() > 0 {
        lemma_uniform_stream_counts(s.drop_last(), b);
        assert forall|v: u8| v != b implies count_of(s, v) == 0 by {
            assert(s.last() == b);
            assert(count_of(s.drop_last(), v) == 0);
        }
    }
}

/// Wraps the path of one file and derives its identity attributes on demand.
/// The path string is the sole stored state.
pub struct FileUtils {
    file_path: String,
}

impl FileUtils {
    /// The wrapped path.
    pub closed spec fn path_spec(&self) -> Seq<char> {
        self.file_path@
    }

    /// Creates a new `FileUtils` instance with the specified file path.
    pub fn new(file_path: &str) -> (f: FileUtils)
        ensures
            f.path_spec() == file_path@,
    {
        FileUtils { file_path: file_path.to_owned() }
    }

    /// The wrapped path, for the embedding program's filesystem calls.
    pub fn file_path(&self) -> (r: &str)
        ensures
            r@ == self.path_spec(),
    {
        self.file_path.as_str()
    }

    /// Returns the file name — the final path component — if available.
    pub fn get_file_name(&self) -> (r: Option<String>)
        ensures
            match r {
                Some(n) => file_name_spec(self.path_spec()) == Some(n@),
                None => file_name_spec(self.path_spec()) is None,
            },
    {
        let s: &str = self.file_path.as_str();
        let len = s.unicode_len();
        let mut i: usize = 0;
        let mut cut: usize = 0;
        while i < len
            invariant
                i <= len,
                cut <= i,
                len == s@.len(),
                s@ == self.path_spec(),
                cut as int == name_start(s@.take(i as int)),
            decreases len - i,
        {
            let c = s.get_char(i);
            proof {
                assert(s@.take(i + 1).drop_last() =~= s@.take(i as int));
                assert(s@.take(i + 1).last() == s@[i as int]);
            }
            if c == '/' || c == '\\' {
                cut = i + 1;
            }
            i += 1;
        }
        proof {
            assert(s@.take(len as int) =~= s@);
        }
        if cut == len {
            return None;
        }
        let tail_len = len - cut;
        if tail_len == 1 && s.get_char(cut) == '.' {
            return None;
        }
        if tail_len == 2 && s.get_char(cut) == '.' && s.get_char(cut + 1) == '.' {
            return None;
        }
        let tail = s.substring_char(cut, len);
        Some(tail.to_owned())
    }

    /// Returns the internal name of the file (the file stem) if available.
    pub fn get_internal_name(&self) -> (r: Option<String>)
        ensures
            match r {
                Some(n) => stem_spec(self.path_spec()) == Some(n@),
                None => stem_spec(self.path_spec()) is None,
            },
    {
        match self.get_file_name() {
            None => None,
            Some(name) => {
                let ns: &str = name.as_str();
                let (found, pos) = find_last_dot(ns);
                if found && pos > 0 {
                    Some(ns.substring_char(0, pos).to_owned())
                } else {
                    Some(name)
                }
            },
        }
    }

    /// Returns the file extension if available.
    pub fn get_file_extension(&self) -> (r: Option<String>)
        ensures
            match r {
                Some(e) => extension_spec(self.path_spec()) == Some(e@),
                None => extension_spec(self.path_spec()) is None,
            },
    {
        match self.get_file_name() {
            None => None,
            Some(name) => {
                let ns: &str = name.as_str();
                let nlen = ns.unicode_len();
                let (found, pos) = find_last_dot(ns);
                if found && pos > 0 {
                    Some(ns.substring_char(pos + 1, nlen).to_owned())
                } else {
                    None
                }
            },
        }
    }

    /// Concatenates the stem, the observed file size as decimal text, and
    /// the extension into the composite tag, substituting the empty string
    /// for each component that is unavailable. The size is the embedding
    /// program's metadata observation: `None` when the query failed.
    pub fn get_concatenate_file_tags(&self, size: Option<u64>) -> (r: String)
        ensures
            r@ == tag_spec(self.path_spec(), size),
    {
        let mut r = match self.get_internal_name() {
            Some(s) => s,
            None => String::new(),
        };
        match size {
            Some(v) => {
                let t = u64_to_string(v);
                r.append(t.as_str());
            },
            None => {},
        }
        match self.get_file_extension() {
            Some(e) => {
                r.append(e.as_str());
            },
            None => {},
        }
        proof {
            assert(r@ =~= tag_spec(self.path_spec(), size));
        }
        r
    }

    /// The randomized name under which this file is stored in quarantine: a
    /// 16-character identifier drawn from the file's composite tag, so that
    /// the stored name carries no directly reversible trace of the original
    /// name. The embedding program renames the file to this name inside the
    /// quarantine directory.
    pub fn randomized_quarantine_name(&self, size: Option<u64>) -> (r: String)
        ensures
            r@.len() == 16,
            forall|i: int|
                0 <= i < 16 ==> crate::genericutils::palette_of(
                    tag_spec(self.path_spec(), size),
                ).contains(#[trigger] r@[i]),
    {
        let tag = self.get_concatenate_file_tags(size);
        crate::genericutils::generate_random_string(tag.as_str())
    }
}

/// Adds the byte-value frequencies of one chunk of a file's byte stream to a
/// running frequency table of all 256 byte values.
pub fn accumulate_counts(counts: &mut Vec<u64>, chunk: &[u8])
    requires
        old(counts)@.len() == 256,
        forall|b: int| 0 <= b < 256 ==> #[trigger] old(counts)@[b] + chunk@.len() <= u64::MAX,
    ensures
        final(counts)@.len() == 256,
        forall|b: u8|
            #[trigger] final(counts)@[b as int] == old(counts)@[b as int] + count_of(chunk@, b),
{
    let mut i: usize = 0;
    while i < chunk.len()
        invariant
            i <= chunk@.len(),
            counts@.len() == 256,
            forall|b: int| 0 <= b < 256 ==> #[trigger] old(counts)@[b] + chunk@.len() <= u64::MAX,
            forall|b: u8|
                #[trigger] counts@[b as int] == old(counts)@[b as int] + count_of(
                    chunk@.take(i as int),
                    b,
                ),
        decreases chunk@.len() - i,
    {
        let b = chunk[i];
        proof {
            lemma_count_le_len(chunk@.take(i as int), b);
        }
        let cur = counts[b as usize];
        counts[b as usize] = cur + 1;
        proof {
            assert forall|v: u8|
                #[trigger] counts@[v as int] == old(counts)@[v as int] + count_of(
                    chunk@.take(i + 1),
                    v,
                ) by {
                assert(chunk@.take(i + 1).drop_last() =~= chunk@.take(i as int));
                assert(chunk@.take(i + 1).last() == chunk@[i as int]);
            }
        }
        i += 1;
    }
    proof {
        assert(chunk@.take(chunk@.len() as int) =~= chunk@);
    }
}

/// The frequency table of a complete byte stream: a table of all 256 byte
/// values, where entry `b` holds how often byte value `b` occurs.
pub fn byte_counts(data: &[u8]) -> (counts: Vec<u64>)
    requires
        data@.len() <= u64::MAX,
    ensures
        counts@.len() == 256,
        forall|b: u8| #[trigger] counts@[b as int] == count_of(data@, b),
{
    let mut counts: Vec<u64> = vec![0u64; 256];
    accumulate_counts(&mut counts, data);
    counts
}

/// Composite tags are deterministic: the same path with the same size
/// observation always yields the same tag.
pub proof fn lemma_composite_tag_deterministic(
    p1: Seq<char>,
    p2: Seq<char>,
    s1: Option<u64>,
    s2: Option<u64>,
)
    requires
        p1 == p2,
        s1 == s2,
    ensures
        tag_spec(p1, s1) == tag_spec(p2, s2),
{
}

/// Locates the last `.` in a string: returns whether one exists and, if so,
/// its character index.
fn find_last_dot(s: &str) -> (r: (bool, usize))
    ensures
        r.0 == (last_dot(s@) >= 0),
        r.0 ==> r.1 as int == last_dot(s@) && r.1 < s@.len(),
{
    let len = s.unicode_len();
    let mut j: usize = 0;
    let mut found = false;
    let mut pos: usize = 0;
    while j < len
        invariant
            j <= len,
            len == s@.len(),
            found == (last_dot(s@.take(j as int)) >= 0),
            found ==> pos as int == last_dot(s@.take(j as int)),
            found ==> pos < j,
        decreases len - j,
    {
        let c = s.get_char(j);
        proof {
            assert(s@.take(j + 1).drop_last() =~= s@.take(j as int));
            assert(s@.take(j + 1).last() == s@[j as int]);
        }
        if c == '.' {
            found = true;
            pos = j;
        }
        j += 1;
    }
    proof {
        assert(s@.take(len as int) =~= s@);
    }
    (found, pos)
}

} // verus!
