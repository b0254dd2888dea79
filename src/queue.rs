//! Sequence IDs and the bookmark namespace of the queue.
use vstd::prelude::*;
use crate::text::{string_views, has_prefix, slice_chars, trim_chars, trimmed, lemma_trimmed_unchanged, all_digits, chars_of, dec, dec_value, digit_char, digit_val, is_digit, push_chars, push_decimal, push_str, string_of, value_of_digit};
use crate::exit_codes::{ExitError, USAGE};

verus! {

/// The largest sequence ID.
pub const MAX_SEQ_ID: u32 = 999999;

/// What `str::parse::<u32>` accepts: an optional `+`, then at least one decimal
/// digit, with a value that fits in 32 bits.
pub open spec fn parsed_u32(s: Seq<char>) -> Option<nat> {
    let d = if s.len() > 0 && s[0] == '+' {
        s.drop_first()
    } else {
        s
    };
    if d.len() > 0 && all_digits(d) && dec_value(d) <= u32::MAX {
        Some(dec_value(d))
    } else {
        None
    }
}

pub open spec fn clamp_u32(x: nat) -> nat {
    if x > u32::MAX {
        4294967296
    } else {
        x
    }
}

/// Parses an unsigned 32-bit decimal number as `str::parse::<u32>` does.
pub fn parse_u32(s: &Vec<char>) -> (r: Option<u32>)
    ensures
        match parsed_u32(s@) {
            Some(v) => r == Some(v as u32),
            None => r.is_none(),
        },
{
    let start: usize = if s.len() > 0 && s[0] == '+' {
        1
    } else {
        0
    };
    let ghost d = if s@.len() > 0 && s@[0] == '+' {
        s@.drop_first()
    } else {
        s@
    };
    proof {
        assert(d =~= s@.skip(start as int));
    }
    if start >= s.len() {
        return None;
    }
    let mut v: u64 = 0;
    let mut k: usize = start;
    proof {
        assert(d.take(0) =~= Seq::<char>::empty());
    }
    while k < s.len()
        invariant
            start <= k <= s@.len(),
            d =~= s@.skip(start as int),
            d == (if s@.len() > 0 && s@[0] == '+' {
                s@.drop_first()
            } else {
                s@
            }),
            all_digits(d.take(k - start)),
            v == clamp_u32(dec_value(d.take(k - start))),
        decreases s@.len() - k,
    {
        let c = s[k];
        if !('0' <= c && c <= '9') {
            proof {
                assert(d[k - start] == c);
                assert(!is_digit(d[k - start]));
                assert(!all_digits(d));
            }
            return None;
        }
        let dv = value_of_digit(c);
        proof {
            let t = d.take(k - start + 1);
            assert(t.drop_last() =~= d.take(k - start));
            assert(t.last() == c);
            assert(dec_value(t) == dec_value(d.take(k - start)) * 10 + digit_val(c));
            assert forall|i: int| 0 <= i < t.len() implies is_digit(t[i]) by {
                if i < t.len() - 1 {
                    assert(t[i] == d.take(k - start)[i]);
                }
            }
        }
        if v <= 4294967295 {
            let w = v * 10 + dv as u64;
            v = if w > 4294967295 {
                4294967296
            } else {
                w
            };
        }
        k = k + 1;
    }
    proof {
        assert(d.take(k - start) =~= d);
    }
    if v > 4294967295 {
        None
    } else {
        Some(v as u32)
    }
}

/// Why a sequence ID was refused; each variant holds the input as given.
pub enum SeqIdError {
    Empty,
    NotNumeric(String),
    OutOfRange(String),
}

impl SeqIdError {
    pub open spec fn message_text(&self) -> Seq<char> {
        match self {
            SeqIdError::Empty => "invalid sequence ID: empty"@,
            SeqIdError::NotNumeric(s) => "invalid sequence ID: '"@ + s@ + "' (must be numeric)"@,
            SeqIdError::OutOfRange(s) => "invalid sequence ID: "@ + s@ + " (must be 1-999999)"@,
        }
    }

    /// The message shown to the user.
    pub fn message(&self) -> (r: String)
        ensures
            r@ == self.message_text(),
    {
        let mut out: Vec<char> = Vec::new();
        match self {
            SeqIdError::Empty => {
                push_str(&mut out, "invalid sequence ID: empty");
            },
            SeqIdError::NotNumeric(s) => {
                push_str(&mut out, "invalid sequence ID: '");
                push_str(&mut out, s.as_str());
                push_str(&mut out, "' (must be numeric)");
            },
            SeqIdError::OutOfRange(s) => {
                push_str(&mut out, "invalid sequence ID: ");
                push_str(&mut out, s.as_str());
                push_str(&mut out, " (must be 1-999999)");
            },
        }
        string_of(&out)
    }

    /// An invalid sequence ID is a usage error.
    pub fn into_exit_error(self) -> (r: ExitError)
        ensures
            r.code == USAGE,
            r.message@ == self.message_text(),
    {
        let m = self.message();
        ExitError::new(USAGE, m)
    }
}

/// Whether `s` names a sequence ID: decimal digits only, with a value in `1..=999999`
/// (leading zeros allowed).
pub open spec fn valid_seq_id_text(s: Seq<char>) -> bool {
    s.len() > 0 && all_digits(s) && 1 <= dec_value(s) <= 999999
}

/// Validates and parses a sequence ID given by the user.
pub fn parse_seq_id(input: &str) -> (r: Result<u32, SeqIdError>)
    ensures
        valid_seq_id_text(input@) <==> r.is_ok(),
        r matches Ok(id) ==> id == dec_value(input@),
        r matches Err(SeqIdError::Empty) <==> input@.len() == 0,
        r matches Err(SeqIdError::NotNumeric(t)) ==> t@ == input@,
        (r matches Err(SeqIdError::NotNumeric(_))) <==> (input@.len() > 0 && !all_digits(input@)),
        r matches Err(SeqIdError::OutOfRange(t)) ==> t@ == input@,
        (r matches Err(SeqIdError::OutOfRange(_))) <==> (input@.len() > 0 && all_digits(input@)
            && !(1 <= dec_value(input@) <= 999999)),
{
    let cs = chars_of(input);
    if cs.len() == 0 {
        return Err(SeqIdError::Empty);
    }
    let mut k: usize = 0;
    while k < cs.len()
        invariant
            k <= cs@.len(),
            cs@ == input@,
            forall|i: int| 0 <= i < k ==> is_digit(cs@[i]),
        decreases cs@.len() - k,
    {
        if !('0' <= cs[k] && cs[k] <= '9') {
            return Err(SeqIdError::NotNumeric(string_of(&cs)));
        }
        k = k + 1;
    }
    proof {
        assert(cs@.len() > 0 && cs@[0] != '+');
    }
    match parse_u32(&cs) {
        Some(id) => {
            if 1 <= id && id <= MAX_SEQ_ID {
                Ok(id)
            } else {
                Err(SeqIdError::OutOfRange(string_of(&cs)))
            }
        },
        None => Err(SeqIdError::OutOfRange(string_of(&cs))),
    }
}

/// `n` in decimal, padded with zeros on the left to six digits.
pub open spec fn seq_id_text(n: nat) -> Seq<char> {
    if dec(n).len() < 6 {
        Seq::new((6 - dec(n).len()) as nat, |i: int| '0') + dec(n)
    } else {
        dec(n)
    }
}

pub proof fn lemma_dec_len(n: nat)
    ensures
        dec(n).len() >= 1,
        n < 10 ==> dec(n).len() == 1,
        n < 100 ==> dec(n).len() <= 2,
        n < 1000 ==> dec(n).len() <= 3,
        n < 10000 ==> dec(n).len() <= 4,
        n < 100000 ==> dec(n).len() <= 5,
        n < 1000000 ==> dec(n).len() <= 6,
        n < 10000000 ==> dec(n).len() <= 7,
        n < 100000000 ==> dec(n).len() <= 8,
        n < 1000000000 ==> dec(n).len() <= 9,
        n < 10000000000 ==> dec(n).len() <= 10,
        all_digits(dec(n)),
        dec_value(dec(n)) == n,
    decreases n,
{
    let d = dec(n);
    if n >= 10 {
        lemma_dec_len(n / 10);
        let p = dec(n / 10);
        assert(d.drop_last() =~= p);
        assert(d.last() == digit_char(n % 10));
        assert(digit_val(digit_char(n % 10)) == n % 10);
        assert(dec_value(d) == dec_value(p) * 10 + n % 10);
        assert((n / 10) * 10 + n % 10 == n);
        assert forall|i: int| 0 <= i < d.len() implies is_digit(d[i]) by {
            if i < d.len() - 1 {
                assert(d[i] == p[i]);
            }
        }
    } else {
        assert(d.drop_last() =~= Seq::<char>::empty());
        assert(dec_value(d.drop_last()) == 0);
        assert(d.last() == digit_char(n));
        assert(digit_val(digit_char(n)) == n);
    }
}

fn seq_id_chars(id: u32) -> (r: Vec<char>)
    ensures
        r@ == seq_id_text(id as nat),
{
    let mut digits: Vec<char> = Vec::new();
    push_decimal(&mut digits, id as u64);
    proof {
        lemma_dec_len(id as nat);
        assert(digits@ =~= dec(id as nat));
    }
    let mut out: Vec<char> = Vec::new();
    let mut k: usize = digits.len();
    while k < 6
        invariant
            digits@ == dec(id as nat),
            digits@.len() <= k <= 6 || (digits@.len() >= 6 && k == digits@.len()),
            out@ == Seq::new((k - digits@.len()) as nat, |i: int| '0'),
        decreases 6 - k,
    {
        out.push('0');
        proof {
            assert(out@ =~= Seq::new((k + 1 - digits@.len()) as nat, |i: int| '0'));
        }
        k = k + 1;
    }
    let ghost zeros = out@;
    push_chars(&mut out, &digits);
    proof {
        if dec(id as nat).len() >= 6 {
            assert(zeros =~= Seq::<char>::empty());
            assert(out@ =~= dec(id as nat));
        } else {
            assert(zeros =~= Seq::new((6 - dec(id as nat).len()) as nat, |i: int| '0'));
        }
    }
    out
}

/// Formats a sequence ID as in bookmark names: six digits, zero-padded.
pub fn format_seq_id(id: u32) -> (r: String)
    ensures
        r@ == seq_id_text(id as nat),
        id <= MAX_SEQ_ID ==> r@.len() == 6,
{
    proof {
        lemma_dec_len(id as nat);
    }
    let v = seq_id_chars(id);
    string_of(&v)
}

pub open spec fn queue_prefix() -> Seq<char> {
    "jjq/queue/"@
}

pub open spec fn failed_prefix() -> Seq<char> {
    "jjq/failed/"@
}

/// The queue bookmark of sequence ID `id`: `jjq/queue/NNNNNN`.
pub fn queue_bookmark(id: u32) -> (r: String)
    ensures
        r@ == queue_prefix() + seq_id_text(id as nat),
{
    let mut out: Vec<char> = Vec::new();
    push_str(&mut out, "jjq/queue/");
    let v = seq_id_chars(id);
    push_chars(&mut out, &v);
    string_of(&out)
}

/// The failed bookmark of sequence ID `id`: `jjq/failed/NNNNNN`.
pub fn failed_bookmark(id: u32) -> (r: String)
    ensures
        r@ == failed_prefix() + seq_id_text(id as nat),
{
    let mut out: Vec<char> = Vec::new();
    push_str(&mut out, "jjq/failed/");
    let v = seq_id_chars(id);
    push_chars(&mut out, &v);
    string_of(&out)
}

pub open spec fn pow10(n: nat) -> nat
    decreases n,
{
    if n == 0 {
        1
    } else {
        10 * pow10((n - 1) as nat)
    }
}

pub proof fn lemma_dec_value_bound(s: Seq<char>)
    requires
        all_digits(s),
    ensures
        dec_value(s) < pow10(s.len()),
    decreases s.len(),
{
    if s.len() > 0 {
        assert(all_digits(s.drop_last())) by {
            assert forall|i: int| 0 <= i < s.drop_last().len() implies is_digit(
                s.drop_last()[i],
            ) by {
                assert(s.drop_last()[i] == s[i]);
            }
        }
        lemma_dec_value_bound(s.drop_last());
        assert(is_digit(s[s.len() - 1]));
        assert(digit_val(s.last()) < 10);
    }
}

/// The sequence ID in a bookmark name `<prefix>NNNNNN` (exactly six digits).
pub open spec fn bookmark_seq_id(name: Seq<char>, prefix: Seq<char>) -> Option<u32> {
    if name.len() == prefix.len() + 6 && prefix.is_prefix_of(name) && all_digits(
        name.skip(prefix.len() as int),
    ) {
        Some(dec_value(name.skip(prefix.len() as int)) as u32)
    } else {
        None
    }
}

/// The sequence IDs of the names of the form `<prefix>NNNNNN`, in the order given.
pub open spec fn matched_ids(names: Seq<Seq<char>>, prefix: Seq<char>) -> Seq<u32>
    decreases names.len(),
{
    if names.len() == 0 {
        seq![]
    } else {
        let prev = matched_ids(names.drop_last(), prefix);
        match bookmark_seq_id(names.last(), prefix) {
            Some(i) => prev.push(i),
            None => prev,
        }
    }
}

fn name_seq_id(name: &String, prefix: &Vec<char>) -> (r: Option<u32>)
    ensures
        r == bookmark_seq_id(name@, prefix@),
{
    let cs = chars_of(name.as_str());
    if cs.len() < 6 || cs.len() - 6 != prefix.len() || !has_prefix(&cs, prefix) {
        return None;
    }
    let digits = slice_chars(&cs, prefix.len(), cs.len());
    proof {
        assert(digits@ =~= cs@.skip(prefix@.len() as int));
    }
    let mut k: usize = 0;
    while k < digits.len()
        invariant
            k <= digits@.len(),
            cs@ == name@,
            cs@.len() == prefix@.len() + 6,
            prefix@.is_prefix_of(cs@),
            digits@ == cs@.skip(prefix@.len() as int),
            forall|i: int| 0 <= i < k ==> is_digit(digits@[i]),
        decreases digits@.len() - k,
    {
        if !('0' <= digits[k] && digits[k] <= '9') {
            proof {
                assert(!is_digit(digits@[k as int]));
                assert(!all_digits(digits@));
            }
            return None;
        }
        k = k + 1;
    }
    proof {
        lemma_dec_value_bound(digits@);
        assert(pow10(0) == 1);
        assert(pow10(1) == 10);
        assert(pow10(2) == 100);
        assert(pow10(3) == 1000);
        assert(pow10(4) == 10000);
        assert(pow10(5) == 100000);
        assert(pow10(6) == 1000000);
        assert(digits@.len() == 6);
    }
    match parse_u32(&digits) {
        Some(v) => Some(v),
        None => None,
    }
}

/// Sequence IDs of the bookmarks named `<prefix>NNNNNN`, in the order given.
fn ids_matching(bookmarks: &Vec<String>, prefix: &str) -> (r: Vec<u32>)
    ensures
        r@ == matched_ids(string_views(bookmarks@), prefix@),
{
    let p = chars_of(prefix);
    let mut out: Vec<u32> = Vec::new();
    let mut k: usize = 0;
    proof {
        assert(string_views(bookmarks@).take(0) =~= Seq::<Seq<char>>::empty());
    }
    while k < bookmarks.len()
        invariant
            k <= bookmarks@.len(),
            p@ == prefix@,
            out@ == matched_ids(string_views(bookmarks@).take(k as int), prefix@),
        decreases bookmarks@.len() - k,
    {
        let found = name_seq_id(&bookmarks[k], &p);
        proof {
            let t = string_views(bookmarks@).take(k + 1);
            assert(t.drop_last() =~= string_views(bookmarks@).take(k as int));
            assert(t.last() == bookmarks@[k as int]@);
        }
        match found {
            Some(id) => out.push(id),
            None => {},
        }
        k = k + 1;
    }
    proof {
        assert(string_views(bookmarks@).take(k as int) =~= string_views(bookmarks@));
    }
    out
}

/// Relies on `slice::sort_unstable`: the elements are kept and put in ascending order.
#[verifier::external_body]
fn sort_ascending(v: &mut Vec<u32>)
    ensures
        final(v)@.len() == old(v)@.len(),
        final(v)@.to_multiset() == old(v)@.to_multiset(),
        forall|i: int, j: int| 0 <= i < j < final(v)@.len() ==> final(v)@[i] <= final(v)@[j],
{
    v.sort_unstable()
}

/// The IDs of the queued items, lowest first, from the names of the bookmarks
/// under `jjq/queue/`.
pub fn get_queue(bookmarks: &Vec<String>) -> (r: Vec<u32>)
    ensures
        r@.to_multiset() == matched_ids(string_views(bookmarks@), queue_prefix()).to_multiset(),
        forall|i: int, j: int| 0 <= i < j < r@.len() ==> r@[i] <= r@[j],
{
    let mut ids = ids_matching(bookmarks, "jjq/queue/");
    sort_ascending(&mut ids);
    ids
}

/// The IDs of the failed items, most recent first, from the names of the
/// bookmarks under `jjq/failed/`.
pub fn get_failed(bookmarks: &Vec<String>) -> (r: Vec<u32>)
    ensures
        r@.to_multiset() == matched_ids(string_views(bookmarks@), failed_prefix()).to_multiset(),
        forall|i: int, j: int| 0 <= i < j < r@.len() ==> r@[i] >= r@[j],
{
    let mut ids = ids_matching(bookmarks, "jjq/failed/");
    sort_ascending(&mut ids);
    let mut out: Vec<u32> = Vec::new();
    let mut k: usize = ids.len();
    while k > 0
        invariant
            k <= ids@.len(),
            out@ == ids@.subrange(k as int, ids@.len() as int).reverse(),
        decreases k,
    {
        k = k - 1;
        out.push(ids[k]);
        proof {
            assert(ids@.subrange(k as int, ids@.len() as int).reverse() =~= ids@.subrange(
                k + 1,
                ids@.len() as int,
            ).reverse().push(ids@[k as int]));
        }
    }
    proof {
        assert(ids@.subrange(0, ids@.len() as int) =~= ids@);
        ids@.lemma_reverse_to_multiset();
    }
    out
}

/// The lowest queued ID, if any, from the names of the queue bookmarks.
pub fn next_item(bookmarks: &Vec<String>) -> (r: Option<u32>)
    ensures
        r.is_none() <==> matched_ids(string_views(bookmarks@), queue_prefix()).len() == 0,
        r matches Some(id) ==> matched_ids(string_views(bookmarks@), queue_prefix()).contains(id) && forall|
            i: int,
        |
            0 <= i < matched_ids(string_views(bookmarks@), queue_prefix()).len() ==> id <= matched_ids(string_views(bookmarks@),
                queue_prefix(),
            )[i],
{
    let ids = get_queue(bookmarks);
    let ghost m = matched_ids(string_views(bookmarks@), queue_prefix());
    proof {
        ids@.to_multiset_ensures();
        m.to_multiset_ensures();
        assert(ids@.len() == m.len());
    }
    if ids.len() == 0 {
        None
    } else {
        proof {
            ids@.to_multiset_ensures();
            m.to_multiset_ensures();
            assert(ids@.contains(ids@[0]));
            assert(ids@.to_multiset().count(ids@[0]) > 0);
            assert(m.to_multiset().count(ids@[0]) > 0);
            assert(m.contains(ids@[0]));
            assert forall|i: int| 0 <= i < m.len() implies ids@[0] <= m[i] by {
                assert(m.contains(m[i]));
                assert(m.to_multiset().count(m[i]) > 0);
                assert(ids@.to_multiset().count(m[i]) > 0);
                assert(ids@.contains(m[i]));
                let j = choose|j: int| 0 <= j < ids@.len() && ids@[j] == m[i];
                if j > 0 {
                    assert(ids@[0] <= ids@[j]);
                }
            }
        }
        Some(ids[0])
    }
}

/// The sequence ID that follows a `last_id` file holding `text`: its trimmed
/// contents read as a number (zero when they are not one), plus one.
pub open spec fn last_id_value(text: Seq<char>) -> nat {
    match parsed_u32(trimmed(text)) {
        Some(v) => v,
        None => 0,
    }
}

/// Allocates the sequence ID after the one recorded in the `last_id` file's `text`;
/// fails once the range is exhausted.
pub fn next_id(text: &str) -> (r: Result<u32, ExitError>)
    ensures
        last_id_value(text@) < 999999 <==> r.is_ok(),
        r matches Ok(id) ==> id == last_id_value(text@) + 1,
        r matches Err(e) ==> e.code == USAGE && e.message@ == "sequence ID exhausted (at 999999)"@,
{
    let cs = chars_of(text);
    let t = trim_chars(&cs);
    let current: u32 = match parse_u32(&t) {
        Some(v) => v,
        None => 0,
    };
    if current >= MAX_SEQ_ID {
        let mut m: Vec<char> = Vec::new();
        push_str(&mut m, "sequence ID exhausted (at 999999)");
        return Err(ExitError::new(USAGE, string_of(&m)));
    }
    Ok(current + 1)
}

/// The contents written to the `last_id` file once `id` has been allocated.
pub fn last_id_text(id: u32) -> (r: String)
    ensures
        r@ == dec(id as nat),
{
    let mut v: Vec<char> = Vec::new();
    push_decimal(&mut v, id as u64);
    proof {
        assert(v@ =~= dec(id as nat));
    }
    string_of(&v)
}

/// Sequence IDs are consecutive: once `id` is allocated and written back to
/// the `last_id` file, the file reads as `id`, so the next allocation (see
/// [`next_id`]) yields exactly `id + 1`; no ID is skipped or handed out twice.
pub proof fn lemma_next_id_monotonic(id: u32)
    ensures
        last_id_value(dec(id as nat)) == id,
{
    lemma_dec_len(id as nat);
    let d = dec(id as nat);
    assert(is_digit(d[0]) && is_digit(d.last()));
    lemma_trimmed_unchanged(d);
}

/// The text after the last `/` of `s` (all of `s` when it has none).
pub open spec fn after_last_slash(s: Seq<char>) -> Seq<char>
    decreases s.len(),
{
    if s.len() == 0 {
        s
    } else if s.last() == '/' {
        seq![]
    } else {
        after_last_slash(s.drop_last()).push(s.last())
    }
}

/// The numeric ID at the end of a bookmark name such as `jjq/queue/000042`:
/// the text after the last `/` read as a number, or zero when it is not one.
pub fn extract_id_from_bookmark(bookmark: &str) -> (r: u32)
    ensures
        r == match parsed_u32(after_last_slash(bookmark@)) {
            Some(v) => v,
            None => 0,
        },
{
    let cs = chars_of(bookmark);
    let mut k: usize = cs.len();
    proof {
        assert(cs@.subrange(0, k as int) =~= cs@);
        assert(cs@.subrange(k as int, k as int) =~= Seq::<char>::empty());
    }
    while k > 0 && cs[k - 1] != '/'
        invariant
            k <= cs@.len(),
            cs@ == bookmark@,
            after_last_slash(cs@) == after_last_slash(cs@.subrange(0, k as int)) + cs@.subrange(
                k as int,
                cs@.len() as int,
            ),
        decreases k,
    {
        proof {
            let p = cs@.subrange(0, k as int);
            assert(p.last() == cs@[k - 1]);
            assert(p.drop_last() =~= cs@.subrange(0, k - 1));
            assert(after_last_slash(p) == after_last_slash(p.drop_last()).push(cs@[k - 1]));
            assert(after_last_slash(p.drop_last()).push(cs@[k - 1]) + cs@.subrange(
                k as int,
                cs@.len() as int,
            ) =~= after_last_slash(p.drop_last()) + cs@.subrange(k - 1, cs@.len() as int));
        }
        k = k - 1;
    }
    proof {
        let p = cs@.subrange(0, k as int);
        if k > 0 {
            assert(p.last() == cs@[k - 1]);
        }
        assert(after_last_slash(p) =~= Seq::<char>::empty());
        assert(after_last_slash(cs@) =~= cs@.subrange(k as int, cs@.len() as int));
    }
    let tail = slice_chars(&cs, k, cs.len());
    match parse_u32(&tail) {
        Some(v) => v,
        None => 0,
    }
}

/// The `jj` query that tells whether item `id` is queued (read with
/// `jj::bookmark_exists`).
pub fn queue_item_exists_args(id: u32) -> (r: Vec<String>)
    ensures
        crate::text::string_views(r@) == seq![
            "--color=never"@,
            "bookmark"@,
            "list"@,
            "-r"@,
            crate::jj::exact_revset(queue_prefix() + seq_id_text(id as nat)),
            "-T"@,
            "name"@,
        ],
{
    let q = queue_bookmark(id);
    crate::jj::bookmark_exists_args(q.as_str())
}

/// The `jj` query that tells whether item `id` is failed (read with
/// `jj::bookmark_exists`).
pub fn failed_item_exists_args(id: u32) -> (r: Vec<String>)
    ensures
        crate::text::string_views(r@) == seq![
            "--color=never"@,
            "bookmark"@,
            "list"@,
            "-r"@,
            crate::jj::exact_revset(failed_prefix() + seq_id_text(id as nat)),
            "-T"@,
            "name"@,
        ],
{
    let f = failed_bookmark(id);
    crate::jj::bookmark_exists_args(f.as_str())
}

proof fn lemma_zeros_value(z: Seq<char>)
    requires
        forall|i: int| 0 <= i < z.len() ==> z[i] == '0',
    ensures
        dec_value(z) == 0,
    decreases z.len(),
{
    if z.len() > 0 {
        assert(z.last() == '0');
        lemma_zeros_value(z.drop_last());
    }
}

proof fn lemma_zeros_prefix_value(z: Seq<char>, d: Seq<char>)
    requires
        forall|i: int| 0 <= i < z.len() ==> z[i] == '0',
    ensures
        dec_value(z + d) == dec_value(d),
    decreases d.len(),
{
    if d.len() == 0 {
        assert(z + d =~= z);
        lemma_zeros_value(z);
    } else {
        assert((z + d).drop_last() =~= z + d.drop_last());
        assert((z + d).last() == d.last());
        lemma_zeros_prefix_value(z, d.drop_last());
    }
}

/// Sequence IDs round-trip: the six-digit form of every ID from 1 to 999999 is
/// valid input to `parse_seq_id`, which reads it back as the same ID.
pub proof fn lemma_seq_id_round_trip(id: u32)
    requires
        1 <= id <= MAX_SEQ_ID,
    ensures
        valid_seq_id_text(seq_id_text(id as nat)),
        dec_value(seq_id_text(id as nat)) == id,
{
    lemma_dec_len(id as nat);
    let d = dec(id as nat);
    let z = Seq::new((6 - d.len()) as nat, |i: int| '0');
    assert(seq_id_text(id as nat) == z + d);
    lemma_zeros_prefix_value(z, d);
    let t = z + d;
    assert forall|i: int| 0 <= i < t.len() implies is_digit(t[i]) by {
        if i < z.len() {
            assert(t[i] == '0');
        } else {
            assert(t[i] == d[i - z.len()]);
        }
    }
}

/// Successive pushes get strictly increasing IDs: when each allocation reads the
/// `last_id` text that the previous one wrote back, each ID is the previous plus
/// one, so no ID is reused or skipped.
pub proof fn lemma_ids_increase(ids: Seq<u32>)
    requires
        forall|k: int|
            0 <= k < ids.len() - 1 ==> #[trigger] ids[k + 1] == last_id_value(dec(ids[k] as nat)) + 1,
    ensures
        forall|i: int, j: int| 0 <= i < j < ids.len() ==> ids[j] == ids[i] + (j - i),
        forall|i: int, j: int| 0 <= i < j < ids.len() ==> ids[i] < ids[j],
    decreases ids.len(),
{
    if ids.len() > 1 {
        let p = ids.drop_last();
        assert forall|k: int| 0 <= k < p.len() - 1 implies #[trigger] p[k + 1] == last_id_value(
            dec(p[k] as nat),
        ) + 1 by {
            assert(p[k + 1] == ids[k + 1]);
            assert(p[k] == ids[k]);
        }
        lemma_ids_increase(p);
        let n = ids.len() - 1;
        lemma_next_id_monotonic(ids[n - 1]);
        let k = n - 1;
        assert(ids[k + 1] == last_id_value(dec(ids[k] as nat)) + 1);
        assert(ids[n] == ids[n - 1] + 1);
        assert forall|i: int, j: int| 0 <= i < j < ids.len() implies ids[j] == ids[i] + (j - i) by {
            if j < n {
                assert(p[i] == ids[i] && p[j] == ids[j]);
            } else if i < n - 1 {
                assert(p[i] == ids[i] && p[n - 1] == ids[n - 1]);
            }
        }
    }
}

} // verus!
