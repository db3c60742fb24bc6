//! Parsing of the caster description handed to the correction-stream
//! client: `host:port/mountpoint/user=...,password=...`.
//!
//! Only the description's syntax lives here; connecting to the caster is
//! the network front end's business.

use vstd::prelude::*;

verus! {

/// Index of the first occurrence of `sep`, or the length when absent.
pub open spec fn first_index_of(s: Seq<char>, sep: char) -> nat
    decreases s.len(),
{
    if s.len() == 0 {
        0
    } else if s[0] == sep {
        0
    } else {
        1 + first_index_of(s.drop_first(), sep)
    }
}

/// `i` is where the first `sep` stands (or the length, when no `sep`
/// occurs): nothing before it matches, and it points at a match when in
/// range.
proof fn lemma_first_index_at(s: Seq<char>, sep: char, i: int)
    requires
        0 <= i <= s.len(),
        forall|j: int| 0 <= j < i ==> s[j] != sep,
        i < s.len() ==> s[i] == sep,
    ensures
        first_index_of(s, sep) == i,
    decreases s.len(),
{
    if s.len() == 0 {
    } else if s[0] == sep {
        assert(i == 0);
    } else {
        assert(i >= 1);
        let rest = s.drop_first();
        assert forall|j: int| 0 <= j < i - 1 implies rest[j] != sep by {
            assert(rest[j] == s[j + 1]);
        }
        assert(i - 1 < rest.len() ==> rest[i - 1] == sep);
        lemma_first_index_at(rest, sep, i - 1);
    }
}

/// The segments of `s` between occurrences of `sep`: always at least one
/// segment, with empty segments kept (a trailing separator yields a
/// trailing empty segment).
pub open spec fn spec_split(s: Seq<char>, sep: char) -> Seq<Seq<char>>
    decreases s.len(),
{
    let i = first_index_of(s, sep);
    if i < s.len() {
        seq![s.take(i as int)] + spec_split(s.skip(i as int + 1), sep)
    } else {
        seq![s]
    }
}

/// Index of the first `sep` at or after `from`, or the length when none
/// follows.
fn next_sep(s: &str, from: usize, sep: char) -> (r: usize)
    requires
        from <= s@.len(),
    ensures
        from <= r <= s@.len(),
        forall|j: int| from <= j < r ==> s@[j] != sep,
        r < s@.len() ==> s@[r as int] == sep,
{
    let len: usize = s.unicode_len();
    let mut i: usize = from;
    while i < len
        invariant
            from <= i <= len,
            len == s@.len(),
            forall|j: int| from <= j < i ==> s@[j] != sep,
        decreases len - i,
    {
        if s.get_char(i) == sep {
            return i;
        }
        i += 1;
    }
    len
}

/// The views of a segment list.
pub open spec fn seg_views(parts: Seq<String>) -> Seq<Seq<char>> {
    parts.map_values(|p: String| p@)
}

/// Splits `s` at every occurrence of `sep`, keeping empty segments.
pub fn split_str(s: &str, sep: char) -> (parts: Vec<String>)
    ensures
        seg_views(parts@) == spec_split(s@, sep),
        parts@.len() >= 1,
{
    let mut parts: Vec<String> = Vec::new();
    let len: usize = s.unicode_len();
    let mut start: usize = 0;
    proof {
        assert(s@.skip(0) =~= s@);
        assert(seg_views(parts@) + spec_split(s@, sep) =~= spec_split(s@, sep));
    }
    loop
        invariant_except_break
            start <= len,
            len == s@.len(),
            spec_split(s@, sep) == seg_views(parts@) + spec_split(s@.skip(start as int), sep),
        ensures
            seg_views(parts@) == spec_split(s@, sep),
            parts@.len() >= 1,
        decreases len - start,
    {
        let next: usize = next_sep(s, start, sep);
        let piece: String = s.substring_char(start, next).to_owned();
        proof {
            let rem = s@.skip(start as int);
            assert forall|j: int| 0 <= j < next - start implies rem[j] != sep by {
                assert(rem[j] == s@[start + j]);
            }
            if next < len {
                assert(rem[next - start] == s@[next as int]);
            }
            lemma_first_index_at(rem, sep, next - start);
            assert(piece@ =~= rem.take(next - start));
            if next < len {
                assert(rem.skip(next - start + 1) =~= s@.skip(next + 1));
                assert(spec_split(rem, sep) == seq![piece@] + spec_split(s@.skip(next + 1), sep));
                assert(seg_views(parts@.push(piece)) =~= seg_views(parts@).push(piece@));
                assert(seg_views(parts@).push(piece@) + spec_split(s@.skip(next + 1), sep)
                    =~= seg_views(parts@) + (seq![piece@] + spec_split(s@.skip(next + 1), sep)));
            } else {
                assert(piece@ =~= rem);
                assert(spec_split(rem, sep) == seq![rem]);
                assert(seg_views(parts@.push(piece)) =~= seg_views(parts@).push(piece@));
                assert(seg_views(parts@).push(piece@) =~= seg_views(parts@) + seq![rem]);
            }
        }
        parts.push(piece);
        if next == len {
            break ;
        }
        start = next + 1;
    }
    parts
}

/// The whitespace the description format tolerates around its items.
pub open spec fn is_space(c: char) -> bool {
    c == ' ' || c == '\t' || c == '\r' || c == '\n'
}

/// `s` without leading and trailing whitespace.
pub open spec fn spec_trim(s: Seq<char>) -> Seq<char>
    decreases s.len(),
{
    if s.len() == 0 {
        s
    } else if is_space(s[0]) {
        spec_trim(s.drop_first())
    } else if is_space(s.last()) {
        spec_trim(s.drop_last())
    } else {
        s
    }
}

fn is_space_char(c: char) -> (r: bool)
    ensures
        r == is_space(c),
{
    c == ' ' || c == '\t' || c == '\r' || c == '\n'
}

/// Drops leading and trailing whitespace.
pub fn trim_str(s: &str) -> (r: String)
    ensures
        r@ == spec_trim(s@),
{
    let len: usize = s.unicode_len();
    let mut start: usize = 0;
    let mut end: usize = len;
    proof {
        assert(s@.subrange(0, len as int) =~= s@);
    }
    while start < end && is_space_char(s.get_char(start))
        invariant
            start <= end <= len,
            len == s@.len(),
            end == len,
            spec_trim(s@) == spec_trim(s@.subrange(start as int, end as int)),
        decreases end - start,
    {
        proof {
            let sub = s@.subrange(start as int, end as int);
            assert(sub[0] == s@[start as int]);
            assert(sub.drop_first() =~= s@.subrange(start as int + 1, end as int));
        }
        start += 1;
    }
    while end > start && is_space_char(s.get_char(end - 1))
        invariant
            start <= end <= len,
            len == s@.len(),
            spec_trim(s@) == spec_trim(s@.subrange(start as int, end as int)),
            start < end ==> !is_space(s@[start as int]),
        decreases end,
    {
        proof {
            let sub = s@.subrange(start as int, end as int);
            assert(sub[0] == s@[start as int]);
            assert(sub.last() == s@[end - 1]);
            assert(sub.drop_last() =~= s@.subrange(start as int, end as int - 1));
        }
        end -= 1;
    }
    proof {
        let sub = s@.subrange(start as int, end as int);
        if sub.len() > 0 {
            assert(sub[0] == s@[start as int]);
            assert(sub.last() == s@[end - 1]);
        }
    }
    s.substring_char(start, end).to_owned()
}

/// An ASCII decimal digit.
pub open spec fn is_digit(c: char) -> bool {
    48 <= c as u32 <= 57
}

/// The numeric value of one digit.
pub open spec fn digit_val(c: char) -> int {
    c as u32 - 48
}

pub open spec fn all_digits(s: Seq<char>) -> bool {
    forall|i: int| 0 <= i < s.len() ==> is_digit(#[trigger] s[i])
}

/// The number a digit string denotes, most significant digit first.
pub open spec fn digits_value(s: Seq<char>) -> int
    decreases s.len(),
{
    if s.len() == 0 {
        0
    } else {
        digits_value(s.drop_last()) * 10 + digit_val(s.last())
    }
}

proof fn lemma_digits_value_nonneg(s: Seq<char>)
    requires
        all_digits(s),
    ensures
        digits_value(s) >= 0,
    decreases s.len(),
{
    if s.len() > 0 {
        assert forall|i: int| 0 <= i < s.drop_last().len() implies is_digit(
            #[trigger] s.drop_last()[i],
        ) by {
            assert(s.drop_last()[i] == s[i]);
        }
        lemma_digits_value_nonneg(s.drop_last());
    }
}

/// Appending digits never shrinks the denoted number.
proof fn lemma_digits_value_grows(s: Seq<char>, k: int)
    requires
        0 <= k <= s.len(),
        all_digits(s),
    ensures
        digits_value(s) >= digits_value(s.take(k)),
    decreases s.len() - k,
{
    if k < s.len() {
        let t = s.take(k + 1);
        assert(t.drop_last() =~= s.take(k));
        assert(t.last() == s[k]);
        assert forall|i: int| 0 <= i < s.take(k).len() implies is_digit(
            #[trigger] s.take(k)[i],
        ) by {
            assert(s.take(k)[i] == s[i]);
        }
        lemma_digits_value_nonneg(s.take(k));
        lemma_digits_value_grows(s, k + 1);
    } else {
        assert(s.take(k) =~= s);
    }
}

/// The port number a digit string denotes: an optional `+`, then decimal
/// digits, in range; anything else fails.
pub open spec fn spec_parse_u16(s: Seq<char>) -> Option<u16> {
    let digits = if s.len() > 0 && s[0] == '+' {
        s.drop_first()
    } else {
        s
    };
    if digits.len() == 0 {
        None
    } else if !all_digits(digits) {
        None
    } else if digits_value(digits) <= 65535 {
        Some(digits_value(digits) as u16)
    } else {
        None
    }
}

/// Parses a decimal port number.
pub fn parse_u16_str(s: &str) -> (r: Option<u16>)
    ensures
        r == spec_parse_u16(s@),
{
    let len: usize = s.unicode_len();
    let mut i: usize = 0;
    if len > 0 && s.get_char(0) == '+' {
        i = 1;
    }
    let ghost digits = s@.skip(i as int);
    proof {
        if i == 1 {
            assert(digits =~= s@.drop_first());
        } else {
            assert(digits =~= s@);
        }
    }
    if i == len {
        return None;
    }
    let mut acc: u32 = 0;
    let mut j: usize = i;
    while j < len
        invariant
            i <= j <= len,
            len == s@.len(),
            i <= 1,
            (i == 1) == (s@.len() > 0 && s@[0] == '+'),
            digits == s@.skip(i as int),
            digits == (if s@.len() > 0 && s@[0] == '+' {
                s@.drop_first()
            } else {
                s@
            }),
            digits.len() == len - i,
            forall|w: int| 0 <= w < digits.len() ==> digits[w] == s@[i + w],
            all_digits(digits.take(j - i)),
            acc == digits_value(digits.take(j - i)),
            acc <= 65535,
        decreases len - j,
    {
        let c = s.get_char(j);
        let cu = c as u32;
        if cu < 48 || cu > 57 {
            proof {
                assert(digits[j - i] == s@[j as int]);
                assert(!is_digit(digits[j - i]));
            }
            return None;
        }
        let d: u32 = cu - 48;
        proof {
            let t = digits.take(j - i + 1);
            assert(t.drop_last() =~= digits.take(j - i));
            assert(t.last() == digits[j - i]);
            assert(digits[j - i] == s@[j as int]);
            assert forall|w: int| 0 <= w < t.len() implies is_digit(#[trigger] t[w]) by {
                assert(t[w] == digits[w]);
            }
        }
        let val: u32 = acc * 10 + d;
        if val > 65535 {
            proof {
                if all_digits(digits) {
                    lemma_digits_value_grows(digits, j - i + 1);
                }
            }
            return None;
        }
        acc = val;
        j += 1;
    }
    proof {
        assert(digits.take(len - i) =~= digits);
    }
    Some(acc as u16)
}

/// The item names a user credential: it starts with `user=`.
pub open spec fn spec_user_prefix(s: Seq<char>) -> bool {
    &&& s.len() >= 5
    &&& s[0] == 'u'
    &&& s[1] == 's'
    &&& s[2] == 'e'
    &&& s[3] == 'r'
    &&& s[4] == '='
}

/// The item names a password credential: it starts with `password=`.
pub open spec fn spec_password_prefix(s: Seq<char>) -> bool {
    &&& s.len() >= 9
    &&& s[0] == 'p'
    &&& s[1] == 'a'
    &&& s[2] == 's'
    &&& s[3] == 's'
    &&& s[4] == 'w'
    &&& s[5] == 'o'
    &&& s[6] == 'r'
    &&& s[7] == 'd'
    &&& s[8] == '='
}

fn has_user_prefix(s: &str) -> (r: bool)
    ensures
        r == spec_user_prefix(s@),
{
    if s.unicode_len() < 5 {
        return false;
    }
    s.get_char(0) == 'u' && s.get_char(1) == 's' && s.get_char(2) == 'e' && s.get_char(3) == 'r'
        && s.get_char(4) == '='
}

fn has_password_prefix(s: &str) -> (r: bool)
    ensures
        r == spec_password_prefix(s@),
{
    if s.unicode_len() < 9 {
        return false;
    }
    s.get_char(0) == 'p' && s.get_char(1) == 'a' && s.get_char(2) == 's' && s.get_char(3) == 's'
        && s.get_char(4) == 'w' && s.get_char(5) == 'o' && s.get_char(6) == 'r' && s.get_char(7)
        == 'd' && s.get_char(8) == '='
}

/// The credential items of a description: every comma-separated item of
/// every segment after the mountpoint, in order.
pub open spec fn cred_items(segs: Seq<Seq<char>>) -> Seq<Seq<char>>
    decreases segs.len(),
{
    if segs.len() <= 2 {
        Seq::<Seq<char>>::empty()
    } else {
        cred_items(segs.drop_last()) + spec_split(segs.last(), ',')
    }
}

/// Folds one credential item into the (username, password) pair: a later
/// item overwrites an earlier one of the same kind, an unrecognised item
/// changes nothing (the description is then invalid anyway).
pub open spec fn apply_cred(creds: (Option<Seq<char>>, Option<Seq<char>>), item: Seq<char>) -> (
    Option<Seq<char>>,
    Option<Seq<char>>,
) {
    if spec_user_prefix(item) {
        (Some(spec_trim(item)), creds.1)
    } else if spec_password_prefix(item) {
        (creds.0, Some(spec_trim(item)))
    } else {
        creds
    }
}

/// Folds the credential items left to right.
pub open spec fn fold_creds(
    items: Seq<Seq<char>>,
    init: (Option<Seq<char>>, Option<Seq<char>>),
) -> (Option<Seq<char>>, Option<Seq<char>>)
    decreases items.len(),
{
    if items.len() == 0 {
        init
    } else {
        apply_cred(fold_creds(items.drop_last(), init), items.last())
    }
}

/// Folding a concatenation folds the two halves in turn.
proof fn lemma_fold_creds_concat(
    a: Seq<Seq<char>>,
    b: Seq<Seq<char>>,
    init: (Option<Seq<char>>, Option<Seq<char>>),
)
    ensures
        fold_creds(a + b, init) == fold_creds(b, fold_creds(a, init)),
    decreases b.len(),
{
    if b.len() == 0 {
        assert(a + b =~= a);
    } else {
        assert((a + b).drop_last() =~= a + b.drop_last());
        assert((a + b).last() == b.last());
        lemma_fold_creds_concat(a, b.drop_last(), init);
    }
}

/// The credential items of a prefix of the segments stand unchanged, in
/// place, among the credential items of all segments.
proof fn lemma_cred_items_prefix(segs: Seq<Seq<char>>, k: int)
    requires
        0 <= k <= segs.len(),
    ensures
        cred_items(segs.take(k)).len() <= cred_items(segs).len(),
        forall|i: int|
            0 <= i < cred_items(segs.take(k)).len() ==> cred_items(segs.take(k))[i] == cred_items(
                segs,
            )[i],
    decreases segs.len() - k,
{
    if k == segs.len() {
        assert(segs.take(k) =~= segs);
    } else {
        assert(segs.take(k + 1).drop_last() =~= segs.take(k));
        assert(segs.take(k + 1).last() == segs[k]);
        lemma_cred_items_prefix(segs, k + 1);
    }
}

/// Parsing errors of a caster description.
#[derive(Clone, Copy, PartialEq, Eq, Structural, Debug)]
pub enum NTRIPParsing {
    /// The description does not match
    /// `host:port/mountpoint/user=...,password=...`.
    InvalidDescription,
}

/// A caster description: where to connect and how to authenticate.
#[derive(Clone, PartialEq, Eq, Debug)]
pub struct NTRIPInfos {
    pub host: String,
    pub port: u16,
    pub mount: String,
    pub username: Option<String>,
    pub password: Option<String>,
}

/// The description's segments, separated by `/`.
pub open spec fn spec_ntrip_segments(s: Seq<char>) -> Seq<Seq<char>> {
    spec_split(s, '/')
}

/// The colon-separated parts of the description's first segment.
pub open spec fn spec_head_parts(s: Seq<char>) -> Seq<Seq<char>> {
    spec_split(spec_ntrip_segments(s)[0], ':')
}

/// The description parses: at most `host:port` before the first `/`, and
/// every credential item names a user or a password.
pub open spec fn spec_ntrip_valid(s: Seq<char>) -> bool {
    &&& spec_head_parts(s).len() <= 2
    &&& (forall|i: int|
        0 <= i < cred_items(spec_ntrip_segments(s)).len() ==> spec_user_prefix(
            #[trigger] cred_items(spec_ntrip_segments(s))[i],
        ) || spec_password_prefix(cred_items(spec_ntrip_segments(s))[i]))
}

/// The host: everything before the first `:` of the first segment.
pub open spec fn spec_ntrip_host(s: Seq<char>) -> Seq<char> {
    spec_head_parts(s)[0]
}

/// The port: the number after the `:`, or 0 when absent or unparsable.
pub open spec fn spec_ntrip_port(s: Seq<char>) -> u16 {
    if spec_head_parts(s).len() == 2 {
        match spec_parse_u16(spec_trim(spec_head_parts(s)[1])) {
            Some(v) => v,
            None => 0,
        }
    } else {
        0
    }
}

/// The mountpoint: the trimmed second segment, or empty when absent.
pub open spec fn spec_ntrip_mount(s: Seq<char>) -> Seq<char> {
    if spec_ntrip_segments(s).len() >= 2 {
        spec_trim(spec_ntrip_segments(s)[1])
    } else {
        Seq::<char>::empty()
    }
}

/// The credentials: the last `user=` and `password=` items, trimmed.
pub open spec fn spec_ntrip_creds(s: Seq<char>) -> (Option<Seq<char>>, Option<Seq<char>>) {
    fold_creds(cred_items(spec_ntrip_segments(s)), (None, None))
}

/// The view of an optional string.
pub open spec fn opt_view(o: Option<String>) -> Option<Seq<char>> {
    match o {
        Some(x) => Some(x@),
        None => None,
    }
}

impl NTRIPInfos {
    /// Parses a caster description `host:port/mountpoint/user=...`,
    /// `password=...`. Nothing is returned when a third `:` part stands
    /// before the first `/` or a credential item names neither a user nor
    /// a password; an absent or unparsable port falls back to 0, an
    /// absent mountpoint to the empty string.
    #[verifier::rlimit(60)]
    #[verifier::spinoff_prover]
    pub fn parse(s: &str) -> (r: Option<NTRIPInfos>)
        ensures
            r is Some <==> spec_ntrip_valid(s@),
            r is Some ==> {
                &&& r->0.host@ == spec_ntrip_host(s@)
                &&& r->0.port == spec_ntrip_port(s@)
                &&& r->0.mount@ == spec_ntrip_mount(s@)
                &&& opt_view(r->0.username) == spec_ntrip_creds(s@).0
                &&& opt_view(r->0.password) == spec_ntrip_creds(s@).1
            },
    {
        let segments: Vec<String> = split_str(s, '/');
        let ghost segsv = seg_views(segments@);
        let head_parts: Vec<String> = split_str(segments[0].as_str(), ':');
        if head_parts.len() > 2 {
            return None;
        }
        let host: String = head_parts[0].clone();
        let mut port: u16 = 0;
        if head_parts.len() == 2 {
            let trimmed: String = trim_str(head_parts[1].as_str());
            if let Some(v) = parse_u16_str(trimmed.as_str()) {
                port = v;
            }
        }
        let mut mount: String = String::new();
        if segments.len() >= 2 {
            mount = trim_str(segments[1].as_str());
        }
        let mut username: Option<String> = None;
        let mut password: Option<String> = None;
        let seg_len: usize = segments.len();
        let mut k: usize = if seg_len < 2 {
            seg_len
        } else {
            2
        };
        proof {
            assert(cred_items(segsv.take(k as int)) =~= Seq::<Seq<char>>::empty());
        }
        while k < seg_len
            invariant
                k <= seg_len,
                2 <= k || k == seg_len,
                seg_len == segments@.len(),
                segsv == seg_views(segments@),
                segsv == spec_ntrip_segments(s@),
                (opt_view(username), opt_view(password)) == fold_creds(
                    cred_items(segsv.take(k as int)),
                    (None, None),
                ),
                forall|i: int|
                    0 <= i < cred_items(segsv.take(k as int)).len() ==> spec_user_prefix(
                        #[trigger] cred_items(segsv.take(k as int))[i],
                    ) || spec_password_prefix(cred_items(segsv.take(k as int))[i]),
            decreases seg_len - k,
        {
            let items: Vec<String> = split_str(segments[k].as_str(), ',');
            let ghost itemsv = seg_views(items@);
            let ghost carried = fold_creds(cred_items(segsv.take(k as int)), (None, None));
            let item_len: usize = items.len();
            let mut w: usize = 0;
            while w < item_len
                invariant
                    w <= item_len,
                    item_len == items@.len(),
                    itemsv == seg_views(items@),
                    (opt_view(username), opt_view(password)) == fold_creds(
                        itemsv.take(w as int),
                        carried,
                    ),
                    forall|i: int|
                        0 <= i < w ==> spec_user_prefix(#[trigger] itemsv[i])
                            || spec_password_prefix(itemsv[i]),
                    2 <= k < seg_len,
                    seg_len == segments@.len(),
                    segsv == seg_views(segments@),
                    segsv == spec_ntrip_segments(s@),
                    itemsv == spec_split(segsv[k as int], ','),
                    carried == fold_creds(cred_items(segsv.take(k as int)), (None, None)),
                    forall|i: int|
                        0 <= i < cred_items(segsv.take(k as int)).len() ==> spec_user_prefix(
                            #[trigger] cred_items(segsv.take(k as int))[i],
                        ) || spec_password_prefix(cred_items(segsv.take(k as int))[i]),
                decreases item_len - w,
            {
                let item: &String = &items[w];
                proof {
                    assert(itemsv.take(w as int + 1).drop_last() =~= itemsv.take(w as int));
                    assert(itemsv.take(w as int + 1).last() == itemsv[w as int]);
                }
                if has_user_prefix(item.as_str()) {
                    username = Some(trim_str(item.as_str()));
                } else if has_password_prefix(item.as_str()) {
                    password = Some(trim_str(item.as_str()));
                } else {
                    proof {
                        lemma_bad_item_invalidates(s@, segsv, k as int, w as int);
                    }
                    return None;
                }
                w += 1;
            }
            proof {
                assert(itemsv.take(item_len as int) =~= itemsv);
                assert(segsv.take(k as int + 1).drop_last() =~= segsv.take(k as int));
                assert(segsv.take(k as int + 1).last() == segsv[k as int]);
                assert(cred_items(segsv.take(k as int + 1)) == cred_items(segsv.take(k as int))
                    + itemsv);
                lemma_fold_creds_concat(cred_items(segsv.take(k as int)), itemsv, (None, None));
                assert forall|i: int|
                    0 <= i < cred_items(segsv.take(k as int + 1)).len() implies spec_user_prefix(
                    #[trigger] cred_items(segsv.take(k as int + 1))[i],
                ) || spec_password_prefix(cred_items(segsv.take(k as int + 1))[i]) by {
                    let pre = cred_items(segsv.take(k as int));
                    if i < pre.len() {
                        assert(cred_items(segsv.take(k as int + 1))[i] == pre[i]);
                    } else {
                        assert(cred_items(segsv.take(k as int + 1))[i] == itemsv[i - pre.len()]);
                    }
                }
            }
            k += 1;
        }
        proof {
            assert(segsv.take(seg_len as int) =~= segsv);
        }
        Some(NTRIPInfos { host, port, mount, username, password })
    }
}

/// A credential item that names neither a user nor a password makes the
/// whole description invalid.
proof fn lemma_bad_item_invalidates(s: Seq<char>, segsv: Seq<Seq<char>>, k: int, w: int)
    requires
        segsv == spec_ntrip_segments(s),
        2 <= k < segsv.len(),
        0 <= w < spec_split(segsv[k], ',').len(),
        !spec_user_prefix(spec_split(segsv[k], ',')[w]),
        !spec_password_prefix(spec_split(segsv[k], ',')[w]),
    ensures
        !spec_ntrip_valid(s),
{
    let itemsv = spec_split(segsv[k], ',');
    assert(segsv.take(k + 1).drop_last() =~= segsv.take(k));
    assert(segsv.take(k + 1).last() == segsv[k]);
    assert(cred_items(segsv.take(k + 1)) == cred_items(segsv.take(k)) + itemsv);
    let pre = cred_items(segsv.take(k));
    let idx = pre.len() + w;
    assert(cred_items(segsv.take(k + 1))[idx as int] == itemsv[w]);
    lemma_cred_items_prefix(segsv, k + 1);
    assert(cred_items(segsv)[idx as int] == itemsv[w]);
}

impl core::str::FromStr for NTRIPInfos {
    type Err = NTRIPParsing;

    fn from_str(s: &str) -> Result<NTRIPInfos, NTRIPParsing> {
        match NTRIPInfos::parse(s) {
            Some(infos) => Ok(infos),
            None => Err(NTRIPParsing::InvalidDescription),
        }
    }
}

} // verus!
