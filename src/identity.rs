//! The user's platform identity: where it comes from and its derived form.
use vstd::prelude::*;
use crate::decimal::{all_digits, is_digit, parse_u64, u64_of};
use crate::text::{chars_of, is_space, occurs_at, occurs_at_exec, skip_space, skip_space_at, string_of, string_of_range};

verus! {

/// Subtracting this from a primary id gives the secondary (account) id.
pub const STEAM_ID_OFFSET: u64 = 76561197960265728;

/// A user's primary id and the secondary id derived from it.
pub struct UserIdentity {
    pub primary_id: u64,
    pub secondary_id: u64,
}

impl UserIdentity {
    pub open spec fn wf(&self) -> bool {
        self.primary_id >= STEAM_ID_OFFSET && self.secondary_id == self.primary_id - STEAM_ID_OFFSET
    }
}

/// Why no identity could be had.
#[derive(Debug, Clone, Copy, PartialEq, Eq, Structural)]
pub enum IdentityError {
    /// Neither an override nor a matching profile entry exists.
    IdentityNotFound,
    /// The value found is no `u64`, or lies below the offset.
    InvalidIdentity,
}

/// The identity that the text `s` names, if it names a valid one.
pub open spec fn identity_of(s: Seq<char>) -> Result<(u64, u64), IdentityError> {
    match u64_of(s) {
        Some(n) => if n >= STEAM_ID_OFFSET {
            Ok((n, (n - STEAM_ID_OFFSET) as u64))
        } else {
            Err(IdentityError::InvalidIdentity)
        },
        None => Err(IdentityError::InvalidIdentity),
    }
}

/// Builds the identity from its primary id written in decimal.
pub fn identity_from_id(s: &str) -> (r: Result<UserIdentity, IdentityError>)
    ensures
        match r {
            Ok(id) => id.wf() && identity_of(s@) == Ok::<(u64, u64), IdentityError>((id.primary_id, id.secondary_id)),
            Err(e) => identity_of(s@) == Err::<(u64, u64), IdentityError>(e),
        },
{
    match parse_u64(s) {
        Some(n) => if n >= STEAM_ID_OFFSET {
            Ok(UserIdentity { primary_id: n, secondary_id: n - STEAM_ID_OFFSET })
        } else {
            Err(IdentityError::InvalidIdentity)
        },
        None => Err(IdentityError::InvalidIdentity),
    }
}

/// A user's entry holding a number at or above the offset yields that
/// number as the primary id and the number less the offset as the
/// secondary id.
pub proof fn lemma_profile_identity(t: Seq<char>, user: Seq<char>, digits: Seq<char>, n: u64)
    requires
        profile_id(t, user) == Some(digits),
        u64_of(digits) == Some(n),
        n >= STEAM_ID_OFFSET,
    ensures
        identity_of(digits) == Ok::<(u64, u64), IdentityError>((n, (n - STEAM_ID_OFFSET) as u64)),
{
}

proof fn lemma_skip_space_run(t: Seq<char>, i: int, n: int)
    requires
        0 <= i,
        0 <= n,
        i + n < t.len(),
        forall|k: int| i <= k < i + n ==> is_space(#[trigger] t[k]),
        !is_space(t[i + n]),
    ensures
        skip_space(t, i) == i + n,
    decreases n,
{
    if n > 0 {
        lemma_skip_space_run(t, i + 1, n - 1);
    }
}

proof fn lemma_skip_digits_run(t: Seq<char>, i: int, n: int)
    requires
        0 <= i,
        0 <= n,
        i + n < t.len(),
        forall|k: int| i <= k < i + n ==> is_digit(#[trigger] t[k]),
        !is_digit(t[i + n]),
    ensures
        skip_digits(t, i) == i + n,
    decreases n,
{
    if n > 0 {
        lemma_skip_digits_run(t, i + 1, n - 1);
    }
}

proof fn lemma_first_block_skips(t: Seq<char>, key: Seq<char>, i: int, j: int)
    requires
        0 <= i <= j < t.len(),
        forall|p: int| i <= p < j ==> !block_opens_at(t, key, p),
    ensures
        first_block(t, key, i) == first_block(t, key, j),
    decreases j - i,
{
    if i < j {
        lemma_first_block_skips(t, key, i + 1, j);
    }
}

pub open spec fn all_space(s: Seq<char>) -> bool {
    forall|i: int| 0 <= i < s.len() ==> is_space(#[trigger] s[i])
}

/// In profile text where the first block keyed by the user's name opens
/// with its id entry, the id found is exactly the quoted digits of that
/// entry.
pub proof fn lemma_profile_id_of_block(
    pre: Seq<char>,
    user: Seq<char>,
    ws1: Seq<char>,
    ws2: Seq<char>,
    digits: Seq<char>,
    rest: Seq<char>,
)
    requires
        all_space(ws1),
        all_space(ws2),
        ws2.len() > 0,
        digits.len() > 0,
        all_digits(digits),
        ({
            let t = pre + quoted(user) + ws1 + seq!['{'] + quoted(steam_id_key()) + ws2 + seq!['"'] + digits + seq!['"'] + rest;
            forall|p: int| 0 <= p < pre.len() ==> !block_opens_at(t, user, p)
        }),
    ensures
        profile_id(pre + quoted(user) + ws1 + seq!['{'] + quoted(steam_id_key()) + ws2 + seq!['"'] + digits + seq!['"'] + rest, user)
            == Some(digits),
{
    let qu = quoted(user);
    let qk = quoted(steam_id_key());
    let t = pre + qu + ws1 + seq!['{'] + qk + ws2 + seq!['"'] + digits + seq!['"'] + rest;
    let p0 = pre.len() as int;
    let b = p0 + qu.len() + ws1.len();
    let q = b + 1;
    let k = q + 9 + ws2.len();
    let e = k + 1 + digits.len();
    assert(qk.len() == 9);
    assert(t.subrange(p0, p0 + qu.len()) =~= qu);
    assert forall|i: int| p0 + qu.len() <= i < b implies is_space(#[trigger] t[i]) by {
        assert(t[i] == ws1[i - p0 - qu.len()]);
    }
    assert(t[b] == '{');
    lemma_skip_space_run(t, p0 + qu.len(), ws1.len() as int);
    assert(user.len() + 2 == qu.len());
    assert(block_opens_at(t, user, p0));
    lemma_first_block_skips(t, user, 0, p0);
    assert(first_block(t, user, 0) == Some(p0));
    assert(t.subrange(q, q + 9) =~= qk);
    assert forall|i: int| q + 9 <= i < k implies is_space(#[trigger] t[i]) by {
        assert(t[i] == ws2[i - q - 9]);
    }
    assert(t[k] == '"');
    lemma_skip_space_run(t, q + 9, ws2.len() as int);
    assert forall|i: int| k + 1 <= i < e implies is_digit(#[trigger] t[i]) by {
        assert(t[i] == digits[i - k - 1]);
    }
    assert(t[e] == '"');
    lemma_skip_digits_run(t, k + 1, digits.len() as int);
    assert(t[q] == '"');
    assert(id_entry_at(t, q));
    assert(t.subrange(k + 1, e) =~= digits);
    assert(scan_block(t, q, 0) == Some(digits));
}

/// A number below the offset is reported invalid rather than wrapped.
pub proof fn lemma_below_offset_invalid(s: Seq<char>, n: u64)
    requires
        u64_of(s) == Some(n),
        n < STEAM_ID_OFFSET,
    ensures
        identity_of(s) == Err::<(u64, u64), IdentityError>(IdentityError::InvalidIdentity),
{
}

/// `name` between double quotes.
pub open spec fn quoted(name: Seq<char>) -> Seq<char> {
    seq!['"'] + name + seq!['"']
}

pub open spec fn steam_id_key() -> Seq<char> {
    seq!['S', 't', 'e', 'a', 'm', 'I', 'D']
}

/// Where the `{` stands of a block whose quoted key begins at `p`.
pub open spec fn brace_after_key(t: Seq<char>, key: Seq<char>, p: int) -> int {
    skip_space(t, p + key.len() + 2)
}

/// A block keyed `key` opens at `p`: the quoted key, optional whitespace, `{`.
pub open spec fn block_opens_at(t: Seq<char>, key: Seq<char>, p: int) -> bool {
    &&& occurs_at(t, quoted(key), p)
    &&& brace_after_key(t, key, p) < t.len()
    &&& t[brace_after_key(t, key, p)] == '{'
}

/// The first index at or after `p` where a block keyed `key` opens.
pub open spec fn first_block(t: Seq<char>, key: Seq<char>, p: int) -> Option<int>
    decreases t.len() - p,
{
    if p < 0 || p >= t.len() {
        None
    } else if block_opens_at(t, key, p) {
        Some(p)
    } else {
        first_block(t, key, p + 1)
    }
}

/// The first index at or after `i` that holds no digit.
pub open spec fn skip_digits(t: Seq<char>, i: int) -> int
    decreases t.len() - i,
{
    if i < 0 || i >= t.len() || !is_digit(t[i]) {
        i
    } else {
        skip_digits(t, i + 1)
    }
}

/// Where the value's digits begin, for an entry whose key begins at `q`.
pub open spec fn value_quote(t: Seq<char>, q: int) -> int {
    skip_space(t, q + 9)
}

/// An entry `"SteamID"`, whitespace, then a quoted run of digits begins at `q`.
pub open spec fn id_entry_at(t: Seq<char>, q: int) -> bool {
    let k = value_quote(t, q);
    let e = skip_digits(t, k + 1);
    &&& occurs_at(t, quoted(steam_id_key()), q)
    &&& k > q + 9
    &&& k < t.len()
    &&& t[k] == '"'
    &&& e > k + 1
    &&& e < t.len()
    &&& t[e] == '"'
}

/// The digits of the entry that begins at `q`.
pub open spec fn id_entry_value(t: Seq<char>, q: int) -> Seq<char> {
    let k = value_quote(t, q);
    t.subrange(k + 1, skip_digits(t, k + 1))
}

/// The value of the first id entry that stands directly in the block whose
/// body is read from `i` on, `depth` levels inside nested blocks. The block
/// ends at the `}` that closes it; entries of nested blocks are passed over.
pub open spec fn scan_block(t: Seq<char>, i: int, depth: nat) -> Option<Seq<char>>
    decreases t.len() - i,
{
    if i < 0 || i >= t.len() {
        None
    } else if t[i] == '}' {
        if depth == 0 {
            None
        } else {
            scan_block(t, i + 1, (depth - 1) as nat)
        }
    } else if t[i] == '{' {
        scan_block(t, i + 1, depth + 1)
    } else if depth == 0 && id_entry_at(t, i) {
        Some(id_entry_value(t, i))
    } else {
        scan_block(t, i + 1, depth)
    }
}

/// The id recorded for `user` in the profile text `t`: the first id entry
/// directly inside the first block keyed by the user's name.
pub open spec fn profile_id(t: Seq<char>, user: Seq<char>) -> Option<Seq<char>> {
    match first_block(t, user, 0) {
        Some(p) => scan_block(t, brace_after_key(t, user, p) + 1, 0),
        None => None,
    }
}

fn quoted_exec(name: &Vec<char>) -> (r: Vec<char>)
    ensures
        r@ == quoted(name@),
{
    let mut r: Vec<char> = Vec::new();
    r.push('"');
    let mut k: usize = 0;
    while k < name.len()
        invariant
            k <= name@.len(),
            r@ == seq!['"'] + name@.subrange(0, k as int),
        decreases name@.len() - k,
    {
        r.push(name[k]);
        assert(name@.subrange(0, k + 1) == name@.subrange(0, k as int).push(name@[k as int]));
        k = k + 1;
    }
    r.push('"');
    assert(name@.subrange(0, name@.len() as int) == name@);
    r
}

fn skip_digits_at(t: &Vec<char>, i: usize) -> (r: usize)
    requires
        i <= t@.len(),
    ensures
        r == skip_digits(t@, i as int),
        i <= r <= t@.len(),
        all_digits(t@.subrange(i as int, r as int)),
{
    let mut k: usize = i;
    while k < t.len() && '0' <= t[k] && t[k] <= '9'
        invariant
            i <= k <= t@.len(),
            skip_digits(t@, k as int) == skip_digits(t@, i as int),
            all_digits(t@.subrange(i as int, k as int)),
        decreases t@.len() - k,
    {
        assert(t@.subrange(i as int, k + 1) == t@.subrange(i as int, k as int).push(t@[k as int]));
        k = k + 1;
    }
    k
}

/// Where the first block keyed by `key` (given quoted) opens, and its `{`.
fn find_block(t: &Vec<char>, key: &Vec<char>, qkey: &Vec<char>) -> (r: Option<(usize, usize)>)
    requires
        qkey@ == quoted(key@),
    ensures
        match r {
            Some((p, b)) => first_block(t@, key@, 0) == Some(p as int) && b == brace_after_key(t@, key@, p as int)
                && b < t@.len(),
            None => first_block(t@, key@, 0) is None,
        },
{
    let mut p: usize = 0;
    while p < t.len()
        invariant
            p <= t@.len(),
            qkey@ == quoted(key@),
            first_block(t@, key@, p as int) == first_block(t@, key@, 0),
        decreases t@.len() - p,
    {
        if occurs_at_exec(t, qkey, p) {
            let b = skip_space_at(t, p + qkey.len());
            if b < t.len() && t[b] == '{' {
                return Some((p, b));
            }
        }
        p = p + 1;
    }
    None
}

/// The digits of an id entry that begins at `q`, as a range of `t`.
fn entry_at(t: &Vec<char>, q: usize, qid: &Vec<char>) -> (r: Option<(usize, usize)>)
    requires
        q < t@.len(),
        qid@ == quoted(steam_id_key()),
    ensures
        r is Some <==> id_entry_at(t@, q as int),
        r matches Some((a, e)) ==> a <= e <= t@.len() && t@.subrange(a as int, e as int) == id_entry_value(t@, q as int),
{
    if !occurs_at_exec(t, qid, q) {
        return None;
    }
    assert(qid@.len() == 9);
    let n = t.len();
    assert(q + 9 <= n);
    let k = skip_space_at(t, q + 9);
    if !(k > q + 9 && k < t.len() && t[k] == '"') {
        return None;
    }
    let e = skip_digits_at(t, k + 1);
    if e > k + 1 && e < t.len() && t[e] == '"' {
        Some((k + 1, e))
    } else {
        None
    }
}

/// Finds the id recorded for `steam_user` in the profile text `contents`.
pub fn get_steamid_from_config(contents: &str, steam_user: &str) -> (r: Option<String>)
    ensures
        match r {
            Some(s) => profile_id(contents@, steam_user@) == Some(s@),
            None => profile_id(contents@, steam_user@) is None,
        },
{
    let t = chars_of(contents);
    let user = chars_of(steam_user);
    let quser = quoted_exec(&user);
    let key = vec!['S', 't', 'e', 'a', 'm', 'I', 'D'];
    assert(key@ == steam_id_key());
    let qid = quoted_exec(&key);
    let (_, b) = match find_block(&t, &user, &quser) {
        Some(pb) => pb,
        None => return None,
    };
    let n = t.len();
    assert(b < n);
    let mut i: usize = b + 1;
    let mut depth: usize = 0;
    while i < t.len()
        invariant
            b < i <= t@.len(),
            depth <= i,
            qid@ == quoted(steam_id_key()),
            scan_block(t@, i as int, depth as nat) == profile_id(contents@, steam_user@),
            t@ == contents@,
        decreases t@.len() - i,
    {
        let c = t[i];
        if c == '}' {
            if depth == 0 {
                return None;
            }
            depth = depth - 1;
        } else if c == '{' {
            depth = depth + 1;
        } else if depth == 0 {
            if let Some((a, e)) = entry_at(&t, i, &qid) {
                return Some(string_of_range(&t, a, e));
            }
        }
        i = i + 1;
    }
    None
}

/// The view of an optional string.
pub open spec fn opt_view(o: Option<&str>) -> Option<Seq<char>> {
    match o {
        Some(x) => Some(x@),
        None => None,
    }
}

/// The text the identity is read from: `override_id` as given when there
/// is one, else the user's entry in the profile text `config`.
pub open spec fn found_id_text(steam_user: Seq<char>, override_id: Option<Seq<char>>, config: Option<Seq<char>>) -> Option<Seq<char>> {
    match override_id {
        Some(o) => Some(o),
        None => match config {
            Some(c) => profile_id(c, steam_user),
            None => None,
        },
    }
}

/// Finds the text the identity is read from, kept as found.
pub fn find_id_text(steam_user: &str, override_id: Option<&str>, config: Option<&str>) -> (r: Option<String>)
    ensures
        match r {
            Some(t) => found_id_text(steam_user@, opt_view(override_id), opt_view(config)) == Some(t@),
            None => found_id_text(steam_user@, opt_view(override_id), opt_view(config)) is None,
        },
{
    match override_id {
        Some(o) => Some(string_of(o)),
        None => match config {
            Some(c) => get_steamid_from_config(c, steam_user),
            None => None,
        },
    }
}

/// Resolves the user's identity: from `override_id` when one is given, else
/// from the user's entry in the profile text `config` when that is present.
pub fn resolve_identity(steam_user: &str, override_id: Option<&str>, config: Option<&str>) -> (r:
    Result<UserIdentity, IdentityError>)
    ensures
        r matches Ok(id) ==> id.wf(),
        match found_id_text(steam_user@, opt_view(override_id), opt_view(config)) {
            Some(s) => match r {
                Ok(id) => identity_of(s) == Ok::<(u64, u64), IdentityError>((id.primary_id, id.secondary_id)),
                Err(e) => identity_of(s) == Err::<(u64, u64), IdentityError>(e),
            },
            None => r == Err::<UserIdentity, IdentityError>(IdentityError::IdentityNotFound),
        },
{
    match find_id_text(steam_user, override_id, config) {
        Some(s) => identity_from_id(s.as_str()),
        None => Err(IdentityError::IdentityNotFound),
    }
}

} // verus!
