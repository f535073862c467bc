//! Mapping records `app_id;path_template;file_name` and their selection.
use vstd::prelude::*;
use crate::text::{chars_of, occurs_at, occurs_at_exec, skip_space_at, starts_with, string_of, string_of_range, trim_start};

verus! {

/// One line of the mapping file: which file, under which templated
/// directory, belongs to which application.
pub struct ConfigRecord {
    pub app_id: String,
    pub path_template: String,
    pub file_name: String,
}

impl ConfigRecord {
    pub open spec fn view(&self) -> (Seq<char>, Seq<char>, Seq<char>) {
        (self.app_id@, self.path_template@, self.file_name@)
    }
}

/// Fatal faults of the mapping input.
#[derive(Debug, Clone, Copy, PartialEq, Eq, Structural)]
pub enum MappingError {
    /// A line selected for this run does not hold exactly three fields.
    MalformedRecord,
    /// There is no mapping file.
    MappingFileNotFound,
}

/// The first index at or after `i` that holds `;` (`s.len()` if none does).
pub open spec fn next_semi(s: Seq<char>, i: int) -> int
    decreases s.len() - i,
{
    if i < 0 || i >= s.len() || s[i] == ';' {
        i
    } else {
        next_semi(s, i + 1)
    }
}

/// The three `;`-separated fields of `line`, when it holds exactly two `;`.
pub open spec fn record_fields(line: Seq<char>) -> Option<(Seq<char>, Seq<char>, Seq<char>)> {
    let a = next_semi(line, 0);
    let b = next_semi(line, a + 1);
    if a < line.len() && b < line.len() && next_semi(line, b + 1) == line.len() {
        Some((line.subrange(0, a), line.subrange(a + 1, b), line.subrange(b + 1, line.len() as int)))
    } else {
        None
    }
}

pub open spec fn no_semi(s: Seq<char>) -> bool {
    forall|i: int| 0 <= i < s.len() ==> s[i] != ';'
}

pub proof fn lemma_next_semi(s: Seq<char>, i: int)
    requires
        0 <= i <= s.len(),
    ensures
        i <= next_semi(s, i) <= s.len(),
        next_semi(s, i) < s.len() ==> s[next_semi(s, i)] == ';',
        forall|k: int| i <= k < next_semi(s, i) ==> s[k] != ';',
    decreases s.len() - i,
{
    if i < s.len() && s[i] != ';' {
        lemma_next_semi(s, i + 1);
    }
}

/// The fields of a record line put back together are that line, and none
/// of them holds a `;`.
pub proof fn lemma_record_fields_rejoin(line: Seq<char>)
    requires
        record_fields(line) is Some,
    ensures
        ({
            let (a, t, f) = record_fields(line)->0;
            &&& a + seq![';'] + t + seq![';'] + f == line
            &&& no_semi(a) && no_semi(t) && no_semi(f)
        }),
{
    let a = next_semi(line, 0);
    let b = next_semi(line, a + 1);
    lemma_next_semi(line, 0);
    lemma_next_semi(line, a + 1);
    lemma_next_semi(line, b + 1);
    let (x, t, f) = record_fields(line)->0;
    assert(x + seq![';'] + t + seq![';'] + f =~= line);
    assert(no_semi(x)) by {
        assert forall|i: int| 0 <= i < x.len() implies x[i] != ';' by {
            assert(x[i] == line[i]);
        }
    }
    assert(no_semi(t)) by {
        assert forall|i: int| 0 <= i < t.len() implies t[i] != ';' by {
            assert(t[i] == line[a + 1 + i]);
        }
    }
    assert(no_semi(f)) by {
        assert forall|i: int| 0 <= i < f.len() implies f[i] != ';' by {
            assert(f[i] == line[b + 1 + i]);
        }
    }
}

fn next_semi_at(s: &Vec<char>, i: usize) -> (r: usize)
    requires
        i <= s@.len(),
    ensures
        r == next_semi(s@, i as int),
        i <= r <= s@.len(),
{
    let mut k: usize = i;
    while k < s.len() && s[k] != ';'
        invariant
            i <= k <= s@.len(),
            next_semi(s@, k as int) == next_semi(s@, i as int),
        decreases s@.len() - k,
    {
        k = k + 1;
    }
    k
}

/// Splits a mapping line into its three fields; `None` unless the line
/// holds exactly two `;`.
pub fn process_raw_config_line(raw_config: &str) -> (r: Option<ConfigRecord>)
    ensures
        match r {
            Some(rec) => record_fields(raw_config@) == Some(rec.view()),
            None => record_fields(raw_config@) is None,
        },
{
    let s = chars_of(raw_config);
    let a = next_semi_at(&s, 0);
    if a == s.len() {
        return None;
    }
    let b = next_semi_at(&s, a + 1);
    if b == s.len() {
        return None;
    }
    let c = next_semi_at(&s, b + 1);
    if c != s.len() {
        return None;
    }
    Some(ConfigRecord {
        app_id: string_of_range(&s, 0, a),
        path_template: string_of_range(&s, a + 1, b),
        file_name: string_of_range(&s, b + 1, s.len()),
    })
}

/// Whether `line` belongs to application `app_id`: past its leading
/// whitespace it begins with the id and a `;`.
pub open spec fn line_matches(line: Seq<char>, app_id: Seq<char>) -> bool {
    starts_with(trim_start(line), app_id.push(';'))
}

/// The lines of `lines` that belong to `app_id`, in order.
pub open spec fn matching_lines(lines: Seq<String>, app_id: Seq<char>) -> Seq<Seq<char>>
    decreases lines.len(),
{
    if lines.len() == 0 {
        Seq::empty()
    } else {
        let m = matching_lines(lines.drop_last(), app_id);
        if line_matches(lines.last()@, app_id) {
            m.push(lines.last()@)
        } else {
            m
        }
    }
}

/// Whether `line` belongs to the application whose id followed by `;` is `prefix`.
pub fn line_matches_exec(line: &str, prefix: &Vec<char>) -> (r: bool)
    requires
        prefix@.len() > 0,
        prefix@.last() == ';',
    ensures
        r == line_matches(line@, prefix@.drop_last()),
{
    assert(prefix@.drop_last().push(';') == prefix@);
    let t = chars_of(line);
    let k = skip_space_at(&t, 0);
    let r = occurs_at_exec(&t, prefix, k);
    let ghost tr = t@.subrange(k as int, t@.len() as int);
    assert(r == starts_with(tr, prefix@)) by {
        if prefix@.len() <= tr.len() {
            assert(tr.subrange(0, prefix@.len() as int) == t@.subrange(k as int, k + prefix@.len()));
        }
    }
    r
}

/// The records of the lines of `lines` that belong to `app_id`, in order;
/// an error when one of those lines is no record.
pub fn load_matching(lines: &Vec<String>, app_id: &str) -> (r: Result<Vec<ConfigRecord>, MappingError>)
    ensures
        ({
            let m = matching_lines(lines@, app_id@);
            match r {
                Ok(v) => v@.len() == m.len() && forall|k: int| 0 <= k < m.len() ==> record_fields(m[k]) == Some(#[trigger] v@[k].view()),
                Err(e) => e == MappingError::MalformedRecord && exists|k: int| 0 <= k < m.len() && (#[trigger] record_fields(m[k])) is None,
            }
        }),
{
    let mut prefix = chars_of(app_id);
    prefix.push(';');
    let mut v: Vec<ConfigRecord> = Vec::new();
    let mut i: usize = 0;
    while i < lines.len()
        invariant
            i <= lines@.len(),
            prefix@ == app_id@.push(';'),
            ({
                let m = matching_lines(lines@.subrange(0, i as int), app_id@);
                v@.len() == m.len() && forall|k: int| 0 <= k < m.len() ==> record_fields(m[k]) == Some(#[trigger] v@[k].view())
            }),
        decreases lines@.len() - i,
    {
        let ghost m0 = matching_lines(lines@.subrange(0, i as int), app_id@);
        assert(prefix@.drop_last() == app_id@);
        assert(lines@.subrange(0, i + 1).drop_last() == lines@.subrange(0, i as int));
        assert(lines@.subrange(0, i + 1).last() == lines@[i as int]);
        let line = lines[i].as_str();
        if line_matches_exec(line, &prefix) {
            match process_raw_config_line(line) {
                Some(rec) => {
                    v.push(rec);
                },
                None => {
                    proof {
                        let m = matching_lines(lines@, app_id@);
                        lemma_matching_prefix(lines@, app_id@, i as int + 1);
                        let mi1 = matching_lines(lines@.subrange(0, i + 1), app_id@);
                        assert(mi1 == m0.push(lines@[i as int]@));
                        assert(m.subrange(0, mi1.len() as int)[m0.len() as int] == mi1[m0.len() as int]);
                        assert(m[m0.len() as int] == lines@[i as int]@);
                    }
                    return Err(MappingError::MalformedRecord);
                },
            }
        }
        i = i + 1;
    }
    assert(lines@.subrange(0, lines@.len() as int) == lines@);
    Ok(v)
}

/// The lines matched among the first `i` lines come first among all the
/// lines matched.
proof fn lemma_matching_prefix(lines: Seq<String>, app_id: Seq<char>, i: int)
    requires
        0 <= i <= lines.len(),
    ensures
        ({
            let m = matching_lines(lines, app_id);
            let mi = matching_lines(lines.subrange(0, i), app_id);
            mi.len() <= m.len() && m.subrange(0, mi.len() as int) == mi
        }),
    decreases lines.len() - i,
{
    if i == lines.len() {
        assert(lines.subrange(0, i) == lines);
    } else {
        lemma_matching_prefix(lines, app_id, i + 1);
        assert(lines.subrange(0, i + 1).drop_last() == lines.subrange(0, i));
        let mi = matching_lines(lines.subrange(0, i), app_id);
        let mi1 = matching_lines(lines.subrange(0, i + 1), app_id);
        let m = matching_lines(lines, app_id);
        assert(mi1.subrange(0, mi.len() as int) == mi);
        assert(m.subrange(0, mi.len() as int) == m.subrange(0, mi1.len() as int).subrange(0, mi.len() as int));
    }
}

} // verus!
