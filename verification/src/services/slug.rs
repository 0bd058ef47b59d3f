//! Generating a valid, unused [`ServiceId`] from a service's display
//! name: slugify the name to `[a-z0-9-]`, then append `-2`, `-3`, … while
//! the id is taken.

use vstd::prelude::*;

use crate::config::{is_id_char, is_valid_id, ServiceId, MAX_ID_LEN};
use crate::text::{decimal, decimal_string, digit_char, from_chars, to_chars};

verus! {

/// The base used when the name has no ASCII letter or digit at all.
pub const FALLBACK_BASE: &'static str = "service";

/// `c` with an ASCII capital letter lowered; any other character as is.
pub open spec fn ascii_lower(c: char) -> char {
    if 'A' <= c && c <= 'Z' {
        (((c as u8) + 32) as u8) as char
    } else {
        c
    }
}

/// A character a slug keeps: `[a-z0-9]`.
pub open spec fn keeps(c: char) -> bool {
    ('a' <= c && c <= 'z') || ('0' <= c && c <= '9')
}

/// Lowercasing `s` and collapsing every run of other characters into one
/// hyphen (none at the start); the flag says whether the last character
/// written was a hyphen (or nothing was written yet).
pub open spec fn collapse(s: Seq<char>) -> (Seq<char>, bool)
    decreases s.len(),
{
    if s.len() == 0 {
        (seq![], true)
    } else {
        let (acc, hyphen) = collapse(s.drop_last());
        let c = ascii_lower(s.last());
        if keeps(c) {
            (acc.push(c), false)
        } else if !hyphen {
            (acc.push('-'), true)
        } else {
            (acc, hyphen)
        }
    }
}

/// `s` without its trailing hyphens.
pub open spec fn trim_end_hyphens(s: Seq<char>) -> Seq<char>
    decreases s.len(),
{
    if s.len() > 0 && s.last() == '-' {
        trim_end_hyphens(s.drop_last())
    } else {
        s
    }
}

/// The first `n` characters of `s`, without trailing hyphens.
pub open spec fn truncated(s: Seq<char>, n: nat) -> Seq<char> {
    trim_end_hyphens(if s.len() > n { s.take(n as int) } else { s })
}

/// The slug of `name` before any collision handling: collapsed, trimmed,
/// `"service"` if nothing is left, cut to the identifier length limit.
pub open spec fn base_slug(name: Seq<char>) -> Seq<char> {
    let t = trim_end_hyphens(collapse(name).0);
    truncated(if t.len() == 0 { FALLBACK_BASE@ } else { t }, MAX_ID_LEN as nat)
}

/// `-k`.
pub open spec fn suffix(k: nat) -> Seq<char> {
    seq!['-'] + decimal(k)
}

/// The `k`-th id tried for `base`: the base itself first, then the base
/// (cut to leave room) with `-2`, `-3`, … appended.
pub open spec fn candidate(base: Seq<char>, k: nat) -> Seq<char> {
    if k < 2 {
        base
    } else {
        let room: nat = if suffix(k).len() <= MAX_ID_LEN { (MAX_ID_LEN - suffix(k).len()) as nat } else { 0 };
        truncated(base, room) + suffix(k)
    }
}

/// The ids of `existing`.
pub open spec fn id_set(existing: Seq<ServiceId>) -> Set<Seq<char>> {
    existing.map_values(|id: ServiceId| id@).to_set()
}

/// Only identifier characters.
pub open spec fn all_id_chars(s: Seq<char>) -> bool {
    forall|i: int| 0 <= i < s.len() ==> is_id_char(#[trigger] s[i])
}

/// No hyphen at all.
pub open spec fn hyphen_free(s: Seq<char>) -> bool {
    forall|i: int| 0 <= i < s.len() ==> #[trigger] s[i] != '-'
}

/// `10^d`.
pub open spec fn pow10(d: nat) -> nat
    decreases d,
{
    if d == 0 {
        1
    } else {
        10 * pow10((d - 1) as nat)
    }
}

proof fn lemma_pow10_ten()
    ensures
        pow10(10) == 10_000_000_000,
{
    reveal_with_fuel(pow10, 11);
}

proof fn lemma_decimal_digits(n: nat)
    ensures
        decimal(n).len() >= 1,
        forall|i: int| 0 <= i < decimal(n).len() ==> '0' <= #[trigger] decimal(n)[i] && decimal(n)[i] <= '9',
    decreases n,
{
    if n >= 10 {
        lemma_decimal_digits(n / 10);
        let p = decimal(n / 10);
        assert forall|i: int| 0 <= i < decimal(n).len() implies '0' <= #[trigger] decimal(n)[i] && decimal(n)[i] <= '9' by {
            if i < p.len() {
                assert(decimal(n)[i] == p[i]);
            }
        }
    }
}

proof fn lemma_decimal_len(n: nat, d: nat)
    requires
        d >= 1,
        n < pow10(d),
    ensures
        decimal(n).len() <= d,
    decreases d,
{
    if n >= 10 {
        assert(d >= 2) by {
            if d == 1 {
                assert(pow10(1) == 10 * pow10(0));
            }
        }
        assert(pow10(d) == 10 * pow10((d - 1) as nat));
        assert(n / 10 < pow10((d - 1) as nat));
        lemma_decimal_len(n / 10, (d - 1) as nat);
    }
}

proof fn lemma_decimal_injective(m: nat, n: nat)
    requires
        decimal(m) == decimal(n),
    ensures
        m == n,
    decreases m,
{
    lemma_decimal_digits(m / 10);
    lemma_decimal_digits(n / 10);
    if m < 10 && n < 10 {
        assert(decimal(m) == seq![digit_char(m)]);
        assert(decimal(n) == seq![digit_char(n)]);
        assert(seq![digit_char(m)][0] == digit_char(m));
        assert(seq![digit_char(n)][0] == digit_char(n));
        assert(decimal(m)[0] == decimal(n)[0]);
        assert(digit_char(m) == digit_char(n));
    } else if m < 10 {
        assert(decimal(n).len() >= 2);
    } else if n < 10 {
        assert(decimal(m).len() >= 2);
    } else {
        assert(decimal(m).last() == digit_char(m % 10));
        assert(decimal(n).last() == digit_char(n % 10));
        assert(decimal(m).drop_last() =~= decimal(m / 10));
        assert(decimal(n).drop_last() =~= decimal(n / 10));
        assert(decimal(m).last() == decimal(n).last());
        assert(m % 10 == n % 10);
        lemma_decimal_injective(m / 10, n / 10);
        assert(m == 10 * (m / 10) + m % 10);
        assert(n == 10 * (n / 10) + n % 10);
    }
}

proof fn lemma_split_at_last_hyphen(a: Seq<char>, b: Seq<char>, d1: Seq<char>, d2: Seq<char>)
    requires
        a + seq!['-'] + d1 == b + seq!['-'] + d2,
        hyphen_free(d1),
        hyphen_free(d2),
    ensures
        d1 == d2,
{
    let sa = a + seq!['-'];
    let tb = b + seq!['-'];
    let s = sa + d1;
    let t = tb + d2;
    assert(s.len() == t.len());
    if a.len() < b.len() {
        let i = b.len() as int;
        assert(t[i] == tb[i]);
        assert(tb[i] == '-');
        assert(s[i] == d1[i - sa.len()]);
        assert(d1[i - sa.len()] != '-');
        assert(false);
    } else if b.len() < a.len() {
        let i = a.len() as int;
        assert(s[i] == sa[i]);
        assert(sa[i] == '-');
        assert(t[i] == d2[i - tb.len()]);
        assert(d2[i - tb.len()] != '-');
        assert(false);
    }
    assert(d1 =~= s.skip((a.len() + 1) as int));
    assert(d2 =~= t.skip((b.len() + 1) as int));
}

/// Two different suffix numbers always give two different candidates.
proof fn lemma_candidate_injective(base: Seq<char>, j: nat, k: nat)
    requires
        2 <= j,
        2 <= k,
        candidate(base, j) == candidate(base, k),
    ensures
        j == k,
{
    lemma_decimal_digits(j);
    lemma_decimal_digits(k);
    let rj: nat = if suffix(j).len() <= MAX_ID_LEN { (MAX_ID_LEN - suffix(j).len()) as nat } else { 0 };
    let rk: nat = if suffix(k).len() <= MAX_ID_LEN { (MAX_ID_LEN - suffix(k).len()) as nat } else { 0 };
    assert(candidate(base, j) =~= truncated(base, rj) + seq!['-'] + decimal(j));
    assert(candidate(base, k) =~= truncated(base, rk) + seq!['-'] + decimal(k));
    lemma_split_at_last_hyphen(truncated(base, rj), truncated(base, rk), decimal(j), decimal(k));
    lemma_decimal_injective(j, k);
}

proof fn lemma_trim_end_shape(s: Seq<char>)
    ensures
        trim_end_hyphens(s).len() <= s.len(),
        trim_end_hyphens(s) =~= s.take(trim_end_hyphens(s).len() as int),
        trim_end_hyphens(s).len() > 0 ==> trim_end_hyphens(s).last() != '-',
        s.len() > 0 && s[0] != '-' ==> trim_end_hyphens(s).len() > 0,
    decreases s.len(),
{
    if s.len() > 0 && s.last() == '-' {
        lemma_trim_end_shape(s.drop_last());
        let t = trim_end_hyphens(s.drop_last());
        assert(s.drop_last().take(t.len() as int) =~= s.take(t.len() as int));
        if s.len() > 1 && s[0] != '-' {
            assert(s.drop_last()[0] == s[0]);
        }
    } else {
        assert(s.take(s.len() as int) =~= s);
    }
}

proof fn lemma_collapse_chars(s: Seq<char>)
    ensures
        all_id_chars(collapse(s).0),
        collapse(s).0.len() > 0 ==> collapse(s).0[0] != '-',
        collapse(s).1 <==> (collapse(s).0.len() == 0 || collapse(s).0.last() == '-'),
    decreases s.len(),
{
    if s.len() > 0 {
        lemma_collapse_chars(s.drop_last());
        let (acc, h) = collapse(s.drop_last());
        let c = ascii_lower(s.last());
        let r = collapse(s).0;
        assert forall|i: int| 0 <= i < r.len() implies is_id_char(#[trigger] r[i]) by {
            if i < acc.len() {
                assert(r[i] == acc[i]);
            }
        }
        if acc.len() > 0 {
            assert(r[0] == acc[0]);
        }
    }
}

proof fn lemma_truncated_valid(s: Seq<char>, n: nat)
    requires
        all_id_chars(s),
    ensures
        all_id_chars(truncated(s, n)),
        truncated(s, n).len() <= n,
        s.len() > 0 && s[0] != '-' && n > 0 ==> truncated(s, n).len() > 0,
{
    let cut = if s.len() > n { s.take(n as int) } else { s };
    lemma_trim_end_shape(cut);
    let t = truncated(s, n);
    assert forall|i: int| 0 <= i < t.len() implies is_id_char(#[trigger] t[i]) by {
        assert(t[i] == cut[i]);
        assert(cut[i] == s[i]);
    }
    if s.len() > 0 && n > 0 {
        assert(cut[0] == s[0]);
    }
}

proof fn lemma_base_slug_valid(name: Seq<char>)
    ensures
        is_valid_id(base_slug(name)),
{
    reveal_strlit("service");
    lemma_collapse_chars(name);
    let c = collapse(name).0;
    lemma_trim_end_shape(c);
    let t = trim_end_hyphens(c);
    assert(all_id_chars(t)) by {
        assert forall|i: int| 0 <= i < t.len() implies is_id_char(#[trigger] t[i]) by {
            assert(t[i] == c[i]);
        }
    }
    if t.len() > 0 {
        assert(t[0] == c[0]);
    }
    let b = if t.len() == 0 { FALLBACK_BASE@ } else { t };
    assert(all_id_chars(FALLBACK_BASE@));
    lemma_truncated_valid(b, MAX_ID_LEN as nat);
}

proof fn lemma_candidate_valid(base: Seq<char>, k: nat)
    requires
        is_valid_id(base),
        k < pow10(10),
    ensures
        is_valid_id(candidate(base, k)),
{
    if k >= 2 {
        lemma_decimal_digits(k);
        lemma_decimal_len(k, 10);
        let sfx = suffix(k);
        let room = (MAX_ID_LEN - sfx.len()) as nat;
        lemma_truncated_valid(base, room);
        let tb = truncated(base, room);
        let c = candidate(base, k);
        assert(c =~= tb + sfx);
        assert forall|i: int| 0 <= i < c.len() implies is_id_char(#[trigger] c[i]) by {
            if i < tb.len() {
                assert(c[i] == tb[i]);
            } else if i == tb.len() {
                assert(c[i] == '-');
            } else {
                assert(c[i] == decimal(k)[i - tb.len() - 1]);
            }
        }
    }
}

fn ascii_lower_exec(c: char) -> (r: char)
    ensures
        r == ascii_lower(c),
{
    if 'A' <= c && c <= 'Z' {
        ((c as u8) + 32) as char
    } else {
        c
    }
}

fn keeps_exec(c: char) -> (b: bool)
    ensures
        b == keeps(c),
{
    ('a' <= c && c <= 'z') || ('0' <= c && c <= '9')
}

fn trim_end_hyphens_exec(s: &mut Vec<char>)
    ensures
        final(s)@ == trim_end_hyphens(old(s)@),
{
    while s.len() > 0 && s[s.len() - 1] == '-'
        invariant
            trim_end_hyphens(s@) == trim_end_hyphens(old(s)@),
        decreases s@.len(),
    {
        assert(s@.drop_last() == s@.subrange(0, s@.len() - 1));
        s.pop();
    }
}

fn truncate_exec(s: &Vec<char>, max_len: usize) -> (r: Vec<char>)
    ensures
        r@ == truncated(s@, max_len as nat),
{
    let mut out: Vec<char> = Vec::new();
    let n = if s.len() > max_len { max_len } else { s.len() };
    let mut i: usize = 0;
    while i < n
        invariant
            n <= s@.len(),
            i <= n,
            out@ == s@.take(i as int),
        decreases n - i,
    {
        out.push(s[i]);
        assert(out@ =~= s@.take(i + 1));
        i = i + 1;
    }
    assert(out@ =~= if s@.len() > max_len { s@.take(max_len as int) } else { s@ });
    trim_end_hyphens_exec(&mut out);
    out
}

fn base_slug_exec(name: &str) -> (r: Vec<char>)
    ensures
        r@ == base_slug(name@),
{
    let chars = to_chars(name);
    let mut slug: Vec<char> = Vec::new();
    let mut last_was_hyphen = true;
    let mut i: usize = 0;
    while i < chars.len()
        invariant
            chars@ == name@,
            i <= chars@.len(),
            (slug@, last_was_hyphen) == collapse(chars@.take(i as int)),
        decreases chars@.len() - i,
    {
        assert(chars@.take(i + 1).drop_last() =~= chars@.take(i as int));
        assert(chars@.take(i + 1).last() == chars@[i as int]);
        let c = ascii_lower_exec(chars[i]);
        if keeps_exec(c) {
            slug.push(c);
            last_was_hyphen = false;
        } else if !last_was_hyphen {
            slug.push('-');
            last_was_hyphen = true;
        }
        i = i + 1;
    }
    assert(chars@.take(chars@.len() as int) =~= chars@);
    trim_end_hyphens_exec(&mut slug);
    if slug.len() == 0 {
        slug = to_chars(FALLBACK_BASE);
    }
    truncate_exec(&slug, MAX_ID_LEN)
}

fn candidate_exec(base: &Vec<char>, k: u32) -> (r: Vec<char>)
    requires
        k >= 2,
    ensures
        r@ == candidate(base@, k as nat),
{
    let digits = to_chars(decimal_string(k as u64).as_str());
    proof {
        lemma_decimal_digits(k as nat);
        lemma_pow10_ten();
        lemma_decimal_len(k as nat, 10);
    }
    let suffix_len = digits.len() + 1;
    let room = MAX_ID_LEN - suffix_len;
    let mut out = truncate_exec(base, room);
    let ghost tb = out@;
    out.push('-');
    let mut i: usize = 0;
    while i < digits.len()
        invariant
            i <= digits@.len(),
            out@ == tb + seq!['-'] + digits@.take(i as int),
        decreases digits@.len() - i,
    {
        out.push(digits[i]);
        assert(digits@.take(i + 1) =~= digits@.take(i as int).push(digits@[i as int]));
        assert(out@ =~= tb + seq!['-'] + digits@.take(i + 1));
        i = i + 1;
    }
    assert(digits@.take(digits@.len() as int) =~= digits@);
    assert(out@ =~= tb + suffix(k as nat));
    out
}

fn collides(candidate_text: &String, existing: &[ServiceId]) -> (b: bool)
    ensures
        b == id_set(existing@).contains(candidate_text@),
{
    let ghost ids = existing@.map_values(|id: ServiceId| id@);
    let mut i: usize = 0;
    while i < existing.len()
        invariant
            ids == existing@.map_values(|id: ServiceId| id@),
            i <= existing@.len(),
            forall|j: int| 0 <= j < i ==> ids[j] != candidate_text@,
        decreases existing@.len() - i,
    {
        let other = String::from_str(existing[i].as_str());
        if other == *candidate_text {
            assert(ids[i as int] == candidate_text@);
            assert(ids.to_set().contains(ids[i as int]));
            return true;
        }
        i = i + 1;
    }
    assert(!ids.to_set().contains(candidate_text@)) by {
        if ids.contains(candidate_text@) {
            let j = choose|j: int| 0 <= j < ids.len() && ids[j] == candidate_text@;
            assert(ids[j] != candidate_text@);
        }
    }
    false
}

/// The least `k >= 1` whose candidate is free is `k`.
pub open spec fn first_free(base: Seq<char>, taken: Set<Seq<char>>, k: nat) -> bool {
    &&& k >= 1
    &&& !taken.contains(candidate(base, k))
    &&& forall|j: nat| 1 <= j < k ==> taken.contains(#[trigger] candidate(base, j))
}

/// Turns `name` into a valid `[a-z0-9-]{1,48}` id not among `existing`:
/// the base slug of `name` if free, else the first free of `base-2`,
/// `base-3`, … (the base cut short so the id still fits).
pub fn slugify(name: &str, existing: &[ServiceId]) -> (id: ServiceId)
    requires
        existing@.len() + 2 < u32::MAX,
    ensures
        is_valid_id(id@),
        !id_set(existing@).contains(id@),
        exists|k: nat| #[trigger] first_free(base_slug(name@), id_set(existing@), k) && id@ == candidate(base_slug(name@), k),
{
    let base = base_slug_exec(name);
    let ghost taken = id_set(existing@);
    proof {
        lemma_base_slug_valid(name@);
        existing@.map_values(|id: ServiceId| id@).lemma_cardinality_of_set();
    }
    let first = from_chars(&base);
    if !collides(&first, existing) {
        let id = make_id(&first);
        assert(first_free(base@, taken, 1));
        return id;
    }
    let mut k: u32 = 2;
    let ghost mut tried: Set<Seq<char>> = Set::empty();
    loop
        invariant
            2 <= k,
            base@ == base_slug(name@),
            taken == id_set(existing@),
            taken.finite(),
            taken.len() <= existing@.len(),
            existing@.len() + 2 < u32::MAX,
            is_valid_id(base@),
            taken.contains(candidate(base@, 1)),
            forall|j: nat| 1 <= j < k ==> taken.contains(#[trigger] candidate(base@, j)),
            tried.finite(),
            tried.len() == k - 2,
            tried.subset_of(taken),
            forall|x: Seq<char>| #[trigger] tried.contains(x) ==> exists|j: nat| 2 <= j < k && x == candidate(base@, j),
        decreases existing@.len() + 2 - k,
    {
        proof {
            assert(k < pow10(10)) by {
                lemma_pow10_ten();
            }
            lemma_candidate_valid(base@, k as nat);
        }
        let text = from_chars(&candidate_exec(&base, k));
        if !collides(&text, existing) {
            let id = make_id(&text);
            assert(first_free(base@, taken, k as nat));
            return id;
        }
        proof {
            let c = candidate(base@, k as nat);
            assert(!tried.contains(c)) by {
                if tried.contains(c) {
                    let j = choose|j: nat| 2 <= j < k && c == candidate(base@, j);
                    lemma_candidate_injective(base@, j, k as nat);
                }
            }
            let t2 = tried.insert(c);
            assert(t2.subset_of(taken));
            vstd::set_lib::lemma_len_subset(t2, taken);
            assert forall|x: Seq<char>| #[trigger] t2.contains(x) implies exists|j: nat| 2 <= j < k + 1 && x == candidate(base@, j) by {
                if x == c {
                    assert(2 <= k < k + 1 && x == candidate(base@, k as nat));
                } else {
                    let j = choose|j: nat| 2 <= j < k && x == candidate(base@, j);
                    assert(2 <= j < k + 1 && x == candidate(base@, j));
                }
            }
            tried = t2;
        }
        k = k + 1;
    }
}

fn make_id(text: &String) -> (id: ServiceId)
    requires
        is_valid_id(text@),
    ensures
        id@ == text@,
{
    match ServiceId::new(text.as_str()) {
        Ok(id) => id,
        Err(_) => vstd::pervasive::unreached(),
    }
}

} // verus!
