//! Parser for the bundle's `sha256sum` file: one entry per non-blank line,
//! `<64-hex-digit digest> <relative path>`, duplicate paths rejected.

use vstd::prelude::*;

use crate::strutil::{all_hex, bytes_all_hex, bytes_eq, byte_is_ws, is_ws, lower_bytes,
    lower_bytes_of};

verus! {

/// What is wrong with a checksum line.
#[derive(Debug, Clone, Copy, PartialEq, Eq, Structural)]
pub enum ChecksumIssue {
    /// The line does not hold exactly two whitespace-separated fields.
    FieldCount,
    /// The first field is not a 64-digit hex SHA-256.
    BadDigest,
    /// The path already appeared on an earlier line.
    DuplicateEntry,
}

/// One parsed checksum entry: the path as written, and the digest folded to
/// lower case.
pub struct ChecksumEntry {
    pub path: Vec<u8>,
    pub digest: Vec<u8>,
}

impl View for ChecksumEntry {
    type V = (Seq<u8>, Seq<u8>);

    open spec fn view(&self) -> (Seq<u8>, Seq<u8>) {
        (self.path@, self.digest@)
    }
}

/// The views of a sequence of entries.
pub open spec fn entries_view(es: Seq<ChecksumEntry>) -> Seq<(Seq<u8>, Seq<u8>)> {
    es.map_values(|e: ChecksumEntry| e@)
}

/// Index of the first occurrence of `b`, or the length if absent.
pub open spec fn find_byte(s: Seq<u8>, b: u8) -> nat
    decreases s.len(),
{
    if s.len() == 0 {
        0
    } else if s[0] == b {
        0
    } else {
        1 + find_byte(s.skip(1), b)
    }
}

/// Index of the first occurrence of `b` at or after `from`, or the length.
pub fn find_byte_from(s: &[u8], b: u8, from: usize) -> (r: usize)
    requires
        from <= s@.len(),
    ensures
        from <= r <= s@.len(),
        r - from == find_byte(s@.skip(from as int), b),
    decreases s@.len() - from,
{
    if from == s.len() {
        return from;
    }
    if s[from] == b {
        return from;
    }
    let r = find_byte_from(s, b, from + 1);
    assert(s@.skip(from as int).skip(1) =~= s@.skip(from as int + 1));
    r
}

/// Length of the leading run of non-whitespace bytes.
pub open spec fn tok_run(s: Seq<u8>) -> nat
    decreases s.len(),
{
    if s.len() == 0 {
        0
    } else if is_ws(s[0]) {
        0
    } else {
        1 + tok_run(s.skip(1))
    }
}

/// Executable count of the leading non-whitespace run.
pub fn tok_run_exec(s: &[u8], from: usize) -> (r: usize)
    requires
        from <= s@.len(),
    ensures
        from <= r <= s@.len(),
        r - from == tok_run(s@.skip(from as int)),
    decreases s@.len() - from,
{
    if from == s.len() {
        return from;
    }
    if byte_is_ws(s[from]) {
        return from;
    }
    let r = tok_run_exec(s, from + 1);
    assert(s@.skip(from as int).skip(1) =~= s@.skip(from as int + 1));
    r
}

/// The leading non-whitespace run never exceeds the string.
pub proof fn lemma_tok_run_le(s: Seq<u8>)
    ensures
        tok_run(s) <= s.len(),
    decreases s.len(),
{
    if s.len() > 0 && !is_ws(s[0]) {
        lemma_tok_run_le(s.skip(1));
    }
}

/// The whitespace-separated fields of a line.
pub open spec fn spec_fields(s: Seq<u8>) -> Seq<Seq<u8>>
    decreases s.len(),
    via spec_fields_dec
{
    if s.len() == 0 {
        Seq::empty()
    } else if is_ws(s[0]) {
        spec_fields(s.skip(1))
    } else {
        let n = 1 + tok_run(s.skip(1));
        seq![s.take(n as int)] + spec_fields(s.skip(n as int))
    }
}

#[via_fn]
proof fn spec_fields_dec(s: Seq<u8>) {
    if s.len() > 0 && !is_ws(s[0]) {
        lemma_tok_run_le(s.skip(1));
    }
}

/// Split a line into its whitespace-separated fields.
pub fn fields_of(s: &[u8]) -> (r: Vec<Vec<u8>>)
    ensures
        r@.len() == spec_fields(s@).len(),
        forall|i: int| 0 <= i < r@.len() ==> #[trigger] r@[i]@ == spec_fields(s@)[i],
    decreases s@.len(),
{
    if s.len() == 0 {
        return Vec::new();
    }
    if byte_is_ws(s[0]) {
        let rest = &s[1..s.len()];
        assert(rest@ =~= s@.skip(1));
        return fields_of(rest);
    }
    let end = tok_run_exec(s, 1);
    let mut field: Vec<u8> = Vec::new();
    let mut i: usize = 0;
    while i < end
        invariant
            i <= end <= s@.len(),
            field@ == s@.take(i as int),
        decreases end - i,
    {
        field.push(s[i]);
        assert(field@ =~= s@.take(i as int + 1));
        i = i + 1;
    }
    let rest = &s[end..s.len()];
    assert(rest@ =~= s@.skip(end as int));
    assert(s@.skip(1).skip(0) == s@.skip(1));
    let mut r = fields_of(rest);
    r.insert(0, field);
    assert(spec_fields(s@) =~= seq![s@.take(end as int)] + spec_fields(s@.skip(end as int)));
    r
}

/// Outcome of one checksum line.
pub enum LineOut {
    Blank,
    Bad(ChecksumIssue),
    Entry(Seq<u8>, Seq<u8>),
}

/// How one line parses: blank lines are skipped; a line must hold a digest
/// and a path; the digest is folded to lower case and must be 64 hex digits.
pub open spec fn line_out(line: Seq<u8>) -> LineOut {
    let fs = spec_fields(line);
    if fs.len() == 0 {
        LineOut::Blank
    } else if fs.len() != 2 {
        LineOut::Bad(ChecksumIssue::FieldCount)
    } else {
        let digest = lower_bytes_of(fs[0]);
        if digest.len() != 64 || !all_hex(digest) {
            LineOut::Bad(ChecksumIssue::BadDigest)
        } else {
            LineOut::Entry(fs[1], digest)
        }
    }
}

/// Whether some already-parsed entry has this path.
pub open spec fn has_path(acc: Seq<(Seq<u8>, Seq<u8>)>, p: Seq<u8>) -> bool {
    exists|j: int| 0 <= j < acc.len() && acc[j].0 == p
}

/// Executable test for [`has_path`].
pub fn entries_have_path(acc: &Vec<ChecksumEntry>, p: &[u8]) -> (r: bool)
    ensures
        r == has_path(entries_view(acc@), p@),
{
    let mut i: usize = 0;
    while i < acc.len()
        invariant
            i <= acc@.len(),
            forall|j: int| 0 <= j < i ==> #[trigger] entries_view(acc@)[j].0 != p@,
        decreases acc@.len() - i,
    {
        if bytes_eq(acc[i].path.as_slice(), p) {
            assert(entries_view(acc@)[i as int].0 == p@);
            return true;
        }
        i = i + 1;
    }
    false
}

/// The parse of the whole file: entries in line order, or the first bad line
/// (1-based) with its issue.
pub open spec fn spec_parse_sha256sum(
    s: Seq<u8>,
    lineno: nat,
    acc: Seq<(Seq<u8>, Seq<u8>)>,
) -> Result<Seq<(Seq<u8>, Seq<u8>)>, (nat, ChecksumIssue)>
    decreases s.len(),
{
    if s.len() == 0 {
        Ok(acc)
    } else {
        let nl = if find_byte(s, 10) <= s.len() {
            find_byte(s, 10)
        } else {
            s.len()
        };
        let line = s.take(nl as int);
        let rest = if nl < s.len() {
            s.skip(nl as int + 1)
        } else {
            Seq::empty()
        };
        match line_out(line) {
            LineOut::Blank => spec_parse_sha256sum(rest, lineno + 1, acc),
            LineOut::Bad(issue) => Err((lineno, issue)),
            LineOut::Entry(p, d) => if has_path(acc, p) {
                Err((lineno, ChecksumIssue::DuplicateEntry))
            } else {
                spec_parse_sha256sum(rest, lineno + 1, acc.push((p, d)))
            },
        }
    }
}

/// The first occurrence of a byte is never past the end.
pub proof fn lemma_find_byte_le(s: Seq<u8>, b: u8)
    ensures
        find_byte(s, b) <= s.len(),
    decreases s.len(),
{
    if s.len() > 0 && s[0] != b {
        lemma_find_byte_le(s.skip(1), b);
    }
}

fn parse_rec(s: &[u8], from: usize, lineno: usize, acc: Vec<ChecksumEntry>) -> (r: Result<
    Vec<ChecksumEntry>,
    (usize, ChecksumIssue),
>)
    requires
        from <= s@.len(),
        lineno + s@.len() - from <= usize::MAX,
        lineno >= 1,
    ensures
        match spec_parse_sha256sum(s@.skip(from as int), lineno as nat, entries_view(acc@)) {
            Ok(es) => r matches Ok(v) && entries_view(v@) == es,
            Err((ln, issue)) => r matches Err((gotln, gotissue)) && gotln == ln && gotissue
                == issue,
        },
    decreases s@.len() - from,
{
    let ghost win = s@.skip(from as int);
    if from == s.len() {
        assert(entries_view(acc@) =~= entries_view(acc@));
        return Ok(acc);
    }
    let nl = find_byte_from(s, 10, from);
    proof {
        lemma_find_byte_le(win, 10);
    }
    let line = &s[from..nl];
    assert(line@ =~= win.take(nl - from));
    let fields = fields_of(line);
    let next: usize = if nl < s.len() {
        nl + 1
    } else {
        nl
    };
    let ghost rest = if nl < s@.len() {
        win.skip(nl - from + 1)
    } else {
        Seq::<u8>::empty()
    };
    assert(s@.skip(next as int) =~= rest);
    if fields.len() == 0 {
        return parse_rec(s, next, lineno + 1, acc);
    }
    if fields.len() != 2 {
        return Err((lineno, ChecksumIssue::FieldCount));
    }
    let digest = lower_bytes(fields[0].as_slice());
    if digest.len() != 64 || !bytes_all_hex(digest.as_slice()) {
        return Err((lineno, ChecksumIssue::BadDigest));
    }
    let mut fields = fields;
    let path = fields.remove(1);
    if entries_have_path(&acc, path.as_slice()) {
        return Err((lineno, ChecksumIssue::DuplicateEntry));
    }
    let mut acc = acc;
    let ghost old_views = entries_view(acc@);
    acc.push(ChecksumEntry { path, digest });
    assert(entries_view(acc@) =~= old_views.push((path@, digest@)));
    parse_rec(s, next, lineno + 1, acc)
}

/// Parse a `sha256sum` file. Returns the entries in line order, or the first
/// offending line (1-based) and what is wrong with it.
pub fn parse_sha256sum(contents: &[u8]) -> (r: Result<Vec<ChecksumEntry>, (usize, ChecksumIssue)>)
    requires
        contents@.len() < usize::MAX,
    ensures
        match spec_parse_sha256sum(contents@, 1, Seq::empty()) {
            Ok(es) => r matches Ok(v) && entries_view(v@) == es,
            Err((ln, issue)) => r matches Err((gotln, gotissue)) && gotln == ln && gotissue
                == issue,
        },
{
    let ghost e = entries_view(Seq::<ChecksumEntry>::empty());
    assert(e =~= Seq::<(Seq<u8>, Seq<u8>)>::empty());
    assert(contents@.skip(0) =~= contents@);
    parse_rec(contents, 0, 1, Vec::new())
}

} // verus!
