//! Which release is newer.

use vstd::prelude::*;

use crate::text::{chars_of, spelled};

verus! {

/// A decimal digit.
pub open spec fn is_digit(c: char) -> bool {
    '0' <= c <= '9'
}

/// A hexadecimal digit, as a commit hash is written.
pub open spec fn is_hex(c: char) -> bool {
    is_digit(c) || 'a' <= c <= 'f'
}

/// The text reads as a bare commit hash: the `g` that git may put in front of
/// one, then four to sixty-four hexadecimal digits. Without the `g` at least one
/// of them is a letter, or the text would be a plain number.
pub open spec fn is_hash(t: Seq<char>) -> bool {
    if t.len() > 0 && t[0] == 'g' {
        is_hex_run(t.skip(1))
    } else {
        is_hex_run(t) && !all_digits(t)
    }
}

/// As many hexadecimal digits as a hash can have.
pub open spec fn is_hex_run(t: Seq<char>) -> bool {
    4 <= t.len() <= 64 && forall|i: int| 0 <= i < t.len() ==> is_hex(#[trigger] t[i])
}

/// Nothing but decimal digits.
pub open spec fn all_digits(t: Seq<char>) -> bool {
    forall|i: int| 0 <= i < t.len() ==> is_digit(#[trigger] t[i])
}

/// A version without the `v` that a tag has in front.
pub open spec fn without_v(t: Seq<char>) -> Seq<char>
    decreases t.len(),
{
    if t.len() > 0 && t[0] == 'v' {
        without_v(t.skip(1))
    } else {
        t
    }
}

/// A number that was read is a part, unless it is too large for one.
pub open spec fn with_part(done: Seq<int>, current: Option<int>) -> Seq<int> {
    match current {
        Some(v) if v <= u64::MAX => done.push(v),
        _ => done,
    }
}

/// The numbers read off the first `n` characters, and the one being read.
pub open spec fn read_numbers(t: Seq<char>, n: int) -> (Seq<int>, Option<int>)
    decreases n,
{
    if n <= 0 {
        (Seq::empty(), None)
    } else {
        let (done, current) = read_numbers(t, n - 1);
        let c = t[n - 1];
        if is_digit(c) {
            let d = c as int - '0' as int;
            (
                done,
                match current {
                    Some(v) => Some(10 * v + d),
                    None => Some(d),
                },
            )
        } else {
            (with_part(done, current), None)
        }
    }
}

/// The numbers of a version, in order. A bare commit hash has none: what digits
/// it happens to hold say nothing of how late it is.
pub open spec fn parts_of(v: Seq<char>) -> Seq<int> {
    if is_hash(v) {
        Seq::empty()
    } else {
        let t = without_v(v);
        let (done, current) = read_numbers(t, t.len() as int);
        with_part(done, current)
    }
}

/// A part of a version; those that it does not have are zero.
pub open spec fn part(p: Seq<int>, i: int) -> int {
    if 0 <= i < p.len() {
        p[i]
    } else {
        0
    }
}

/// The first is later at `i`, and neither is before.
pub open spec fn later_at(a: Seq<int>, b: Seq<int>, i: int) -> bool {
    0 <= i && part(a, i) > part(b, i) && forall|j: int| 0 <= j < i ==> part(a, j) == part(b, j)
}

/// The first version is strictly later than the second: compared number by
/// number, so 0.10.0 is later than 0.9.0, and one that cannot be read is never
/// later or earlier than anything.
pub open spec fn later(a: Seq<int>, b: Seq<int>) -> bool {
    a.len() > 0 && b.len() > 0 && exists|i: int| later_at(a, b, i)
}

fn digit(c: char) -> (r: bool)
    ensures
        r == is_digit(c),
{
    '0' <= c && c <= '9'
}

/// Whether the text reads as a bare commit hash.
fn bare_hash(all: &Vec<char>) -> (r: bool)
    ensures
        r == is_hash(all@),
{
    let n: usize = all.len();
    let marked: bool = n > 0 && all[0] == 'g';
    let from: usize = if marked {
        1
    } else {
        0
    };
    let ghost h = all@.skip(from as int);
    assert(all@.skip(0) =~= all@);
    if n - from < 4 || n - from > 64 {
        return false;
    }
    let mut lettered: bool = false;
    let mut i: usize = from;
    while i < n
        invariant
            from <= i <= n == all@.len(),
            from <= 1,
            h == all@.skip(from as int),
            marked == (n > 0 && all@[0] == 'g'),
            marked == (from == 1),
            !marked ==> h == all@,
            4 <= h.len() <= 64,
            forall|k: int| 0 <= k < i - from ==> is_hex(#[trigger] h[k]),
            lettered ==> !all_digits(h),
            !lettered ==> forall|k: int| 0 <= k < i - from ==> is_digit(#[trigger] h[k]),
        decreases n - i,
    {
        let c: char = all[i];
        assert(h[i - from] == c);
        if !digit(c) {
            if !('a' <= c && c <= 'f') {
                assert(!is_hex(h[i - from]));
                return false;
            }
            assert(!is_digit(h[i - from]));
            lettered = true;
        }
        i = i + 1;
    }
    marked || lettered
}

/// Read the numbers of a version.
///
/// Dotted numbers, so that 0.10.0 can sort after 0.9.0 where a string
/// comparison would put it before. A leading `v` is ignored because the tag has
/// one and the firmware's own version string may not.
pub fn version_parts(v: &str) -> (r: Vec<u64>)
    ensures
        r@.len() == parts_of(v@).len(),
        forall|i: int| 0 <= i < r@.len() ==> r@[i] == parts_of(v@)[i],
{
    let all: Vec<char> = chars_of(v);
    let n: usize = all.len();
    let mut from: usize = 0;
    assert(v@.skip(0) =~= v@);
    while from < n && all[from] == 'v'
        invariant
            from <= n == all@.len(),
            all@ == v@,
            without_v(v@) == without_v(v@.skip(from as int)),
        decreases n - from,
    {
        assert(v@.skip(from as int).skip(1) =~= v@.skip(from + 1));
        from = from + 1;
    }
    let ghost t = v@.skip(from as int);
    assert(without_v(v@) == t);
    let mut out: Vec<u64> = Vec::new();
    if bare_hash(&all) {
        return out;
    }
    // The number being read; none past its largest value.
    let mut reading: bool = false;
    let mut value: Option<u64> = Some(0);
    let mut i: usize = from;
    while i < n
        invariant
            from <= i <= n == all@.len(),
            all@ == v@,
            t == v@.skip(from as int),
            out@.len() == read_numbers(t, i - from).0.len(),
            forall|k: int| 0 <= k < out@.len() ==> out@[k] == read_numbers(t, i - from).0[k],
            reading == (read_numbers(t, i - from).1 is Some),
            !reading ==> value == Some(0u64),
            reading ==> {
                let v = read_numbers(t, i - from).1.unwrap();
                &&& v >= 0
                &&& value == if v <= u64::MAX {
                    Some(v as u64)
                } else {
                    None
                }
            },
        decreases n - i,
    {
        let c: char = all[i];
        assert(t[i - from] == c);
        if digit(c) {
            let d: u64 = (c as u32 - '0' as u32) as u64;
            value = match value {
                Some(v) => if v <= (u64::MAX - d) / 10 {
                    Some(10 * v + d)
                } else {
                    None
                },
                None => None,
            };
            reading = true;
        } else {
            if reading {
                match value {
                    Some(v) => out.push(v),
                    None => {},
                }
            }
            reading = false;
            value = Some(0);
        }
        i = i + 1;
    }
    if reading {
        match value {
            Some(v) => out.push(v),
            None => {},
        }
    }
    out
}

/// True when `candidate` is a strictly later version than `running`.
pub fn is_newer(candidate: &str, running: &str) -> (r: bool)
    ensures
        r == later(parts_of(candidate@), parts_of(running@)),
{
    let a: Vec<u64> = version_parts(candidate);
    let b: Vec<u64> = version_parts(running);
    let ghost (pa, pb) = (parts_of(candidate@), parts_of(running@));
    if a.len() == 0 || b.len() == 0 {
        return false;
    }
    let n: usize = if a.len() > b.len() {
        a.len()
    } else {
        b.len()
    };
    let mut i: usize = 0;
    while i < n
        invariant
            i <= n,
            a@.len() == pa.len() > 0,
            b@.len() == pb.len() > 0,
            n >= pa.len(),
            n >= pb.len(),
            forall|k: int| 0 <= k < a@.len() ==> a@[k] == pa[k],
            forall|k: int| 0 <= k < b@.len() ==> b@[k] == pb[k],
            forall|j: int| 0 <= j < i ==> part(pa, j) == part(pb, j),
            pa == parts_of(candidate@),
            pb == parts_of(running@),
        decreases n - i,
    {
        let x: u64 = if i < a.len() {
            a[i]
        } else {
            0
        };
        let y: u64 = if i < b.len() {
            b[i]
        } else {
            0
        };
        assert(x == part(pa, i as int) && y == part(pb, i as int));
        if x != y {
            proof {
                if x > y {
                    assert(later_at(pa, pb, i as int));
                } else {
                    lemma_not_later(pa, pb, i as int);
                }
            }
            return x > y;
        }
        i = i + 1;
    }
    assert(!later(pa, pb)) by {
        if later(pa, pb) {
            let k = choose|k: int| later_at(pa, pb, k);
            assert(part(pa, k) == part(pb, k));
        }
    }
    false
}

proof fn lemma_not_later(a: Seq<int>, b: Seq<int>, i: int)
    requires
        0 <= i,
        part(a, i) < part(b, i),
        forall|j: int| 0 <= j < i ==> part(a, j) == part(b, j),
    ensures
        !later(a, b),
{
    if later(a, b) {
        let k = choose|k: int| later_at(a, b, k);
        if k < i {
            assert(part(a, k) == part(b, k));
        } else if i < k {
            assert(part(a, i) == part(b, i));
        }
    }
}

/// No version is later than itself, and of two versions at most one is later
/// than the other.
pub proof fn law_later_is_one_way(a: Seq<int>, b: Seq<int>)
    ensures
        !later(a, a),
        later(a, b) ==> !later(b, a),
{
    if later(a, a) {
        let k = choose|k: int| later_at(a, a, k);
        assert(part(a, k) > part(a, k));
    }
    if later(a, b) {
        let k = choose|k: int| later_at(a, b, k);
        lemma_not_later(b, a, k);
    }
}

/// A version later than a later one is later.
pub proof fn law_later_is_transitive(a: Seq<int>, b: Seq<int>, c: Seq<int>)
    requires
        later(a, b),
        later(b, c),
    ensures
        later(a, c),
{
    let i = choose|i: int| later_at(a, b, i);
    let j = choose|j: int| later_at(b, c, j);
    let k = if i < j {
        i
    } else {
        j
    };
    assert(part(a, i) > part(b, i));
    assert(part(b, j) > part(c, j));
    if i < j {
        assert(part(b, i) == part(c, i));
    }
    if j < i {
        assert(part(a, j) == part(b, j));
    }
    assert forall|m: int| 0 <= m < k implies part(a, m) == part(c, m) by {
        assert(part(a, m) == part(b, m));
        assert(part(b, m) == part(c, m));
    }
    assert(later_at(a, c, k));
}

/// A text without a digit has no parts.
proof fn lemma_no_digits(t: Seq<char>, n: int)
    requires
        0 <= n <= t.len(),
        forall|i: int| 0 <= i < t.len() ==> !is_digit(#[trigger] t[i]),
    ensures
        read_numbers(t, n) == (Seq::<int>::empty(), None::<int>),
    decreases n,
{
    if n > 0 {
        lemma_no_digits(t, n - 1);
        assert(!is_digit(t[n - 1]));
    }
}

proof fn lemma_without_v(t: Seq<char>)
    ensures
        without_v(t).len() <= t.len(),
        without_v(t) == t.skip(t.len() - without_v(t).len()),
    decreases t.len(),
{
    if t.len() > 0 && t[0] == 'v' {
        lemma_without_v(t.skip(1));
        let k = t.len() - without_v(t).len();
        assert(t.skip(1).skip(k - 1) =~= t.skip(k));
    } else {
        assert(t.skip(0) =~= t);
    }
}

/// The text names no version: it is a bare commit hash, or holds no number.
pub open spec fn is_unreadable(t: Seq<char>) -> bool {
    is_hash(t) || forall|i: int| 0 <= i < t.len() ==> !is_digit(#[trigger] t[i])
}

/// A text that names no version is never an upgrade and never has one: a dongle
/// built from an untagged tree reports a bare commit hash, and offering to
/// update it again and again would be a nag.
pub proof fn law_unreadable_versions_are_never_newer(a: Seq<char>, b: Seq<char>)
    requires
        is_unreadable(a) || is_unreadable(b),
    ensures
        !later(parts_of(a), parts_of(b)),
{
    lemma_unreadable(a);
    lemma_unreadable(b);
}

proof fn lemma_unreadable(t: Seq<char>)
    ensures
        is_unreadable(t) ==> parts_of(t) == Seq::<int>::empty(),
{
    if is_unreadable(t) && !is_hash(t) {
        let rest = without_v(t);
        lemma_without_v(t);
        assert forall|i: int| 0 <= i < rest.len() implies !is_digit(#[trigger] rest[i]) by {
            assert(rest[i] == t[t.len() - rest.len() + i]);
        }
        lemma_no_digits(rest, rest.len() as int);
    }
}

/// The numbers of a text, in order.
pub open spec fn numbers_in(t: Seq<char>) -> Seq<int> {
    let (done, current) = read_numbers(t, t.len() as int);
    with_part(done, current)
}

/// Numbers are read one after the other, whatever single character stands
/// between them: a run of digits gives the number that it spells, unless that is
/// larger than any part can be, and then what follows is read.
pub proof fn law_numbers_are_read_one_after_the_other(run: Seq<char>, gap: char, rest: Seq<char>)
    requires
        forall|i: int| 0 <= i < run.len() ==> 48 <= #[trigger] run[i] as int <= 57,
        !(48 <= gap as int <= 57),
    ensures
        run.len() > 0 && spelled(run) <= u64::MAX ==> numbers_in(run + seq![gap] + rest) == seq![
            spelled(run),
        ] + numbers_in(rest) && numbers_in(run) == seq![spelled(run)],
        run.len() == 0 || spelled(run) > u64::MAX ==> numbers_in(run + seq![gap] + rest)
            == numbers_in(rest) && numbers_in(run) == Seq::<int>::empty(),
{
    let t = run + seq![gap] + rest;
    assert(t.take(run.len() as int) =~= run);
    assert(run.take(run.len() as int) =~= run);
    assert(t.skip(run.len() as int + 1) =~= rest);
    lemma_run(t, run, run.len() as int);
    lemma_run(run, run, run.len() as int);
    let at = run.len() + 1;
    assert(t[at - 1] == gap);
    lemma_after_gap(t, rest, at, rest.len() as int);
    let head = read_numbers(t, at as int).0;
    let tail = read_numbers(rest, rest.len() as int);
    assert(with_part(head + tail.0, tail.1) =~= head + with_part(tail.0, tail.1));
    if run.len() == 0 || spelled(run) > u64::MAX {
        assert(head =~= Seq::empty());
        assert(head + with_part(tail.0, tail.1) =~= with_part(tail.0, tail.1));
    } else {
        assert(head =~= seq![spelled(run)]);
    }
}

proof fn lemma_run(t: Seq<char>, run: Seq<char>, n: int)
    requires
        0 <= n <= run.len() <= t.len(),
        t.take(run.len() as int) == run,
        forall|i: int| 0 <= i < run.len() ==> 48 <= #[trigger] run[i] as int <= 57,
    ensures
        read_numbers(t, n).0 == Seq::<int>::empty(),
        n == 0 ==> read_numbers(t, n).1 is None,
        n > 0 ==> read_numbers(t, n).1 == Some(spelled(run.take(n))),
        n > 0 ==> spelled(run.take(n)) >= 0,
    decreases n,
{
    if n > 0 {
        lemma_run(t, run, n - 1);
        assert(run.take(n).drop_last() =~= run.take(n - 1));
        assert(run.take(n).last() == run[n - 1]);
        assert(t.take(run.len() as int)[n - 1] == t[n - 1]);
        assert(t[n - 1] == run[n - 1]);
        assert(48 <= run[n - 1] as int <= 57);
        if n == 1 {
            assert(run.take(0) =~= Seq::empty());
            assert(spelled(run.take(0)) == 0);
        }
    }
}

proof fn lemma_after_gap(t: Seq<char>, rest: Seq<char>, at: nat, k: int)
    requires
        0 < at,
        t.len() == at + rest.len(),
        t.skip(at as int) == rest,
        0 <= k <= rest.len(),
        read_numbers(t, at as int).1 is None,
    ensures
        read_numbers(t, at + k).0 == read_numbers(t, at as int).0 + read_numbers(rest, k).0,
        read_numbers(t, at + k).1 == read_numbers(rest, k).1,
    decreases k,
{
    let head = read_numbers(t, at as int).0;
    if k > 0 {
        lemma_after_gap(t, rest, at, k - 1);
        assert(t.skip(at as int)[k - 1] == t[at + k - 1]);
        let (done, current) = read_numbers(rest, k - 1);
        assert(with_part(head + done, current) =~= head + with_part(done, current));
    } else {
        assert(head + read_numbers(rest, 0).0 =~= head);
    }
}

/// A version is read for its numbers, however many a `v` stands in front of it,
/// unless it is a bare commit hash.
pub proof fn law_what_a_version_is_read_for(t: Seq<char>)
    ensures
        t.len() == 0 || t[0] != 'v' ==> !is_hash(t) ==> parts_of(t) == numbers_in(t),
        t.len() == 0 || t[0] != 'v' ==> parts_of(seq!['v'] + t) == numbers_in(t),
        parts_of(seq!['v', 'v'] + t) == parts_of(seq!['v'] + t),
{
    let (a, b) = (seq!['v'] + t, seq!['v', 'v'] + t);
    assert(a.skip(1) =~= t);
    assert(b.skip(1) =~= a);
    assert(a[0] == 'v' && b[0] == 'v');
    assert(!is_hash(a)) by {
        assert(!is_hex(a[0]));
    }
    assert(!is_hash(b)) by {
        assert(!is_hex(b[0]));
    }
    reveal_with_fuel(without_v, 3);
}

/// Of two versions that can be read, the first number in which they differ
/// decides, and numbers that one of them does not have are zero.
pub proof fn law_the_first_difference_decides(a: Seq<int>, b: Seq<int>, i: int)
    requires
        a.len() > 0,
        b.len() > 0,
        0 <= i,
        forall|j: int|
            0 <= j < i ==> #[trigger] part(a, j) == part(b, j),
    ensures
        0 <= i < a.len() && i < b.len() && a[i] > b[i] ==> later(a, b) && !later(b, a),
        0 <= i < a.len() && i < b.len() && a[i] < b[i] ==> later(b, a) && !later(a, b),
        b.len() <= i < a.len() && a[i] > 0 ==> later(a, b) && !later(b, a),
        a.len() <= i < b.len() && b[i] > 0 ==> later(b, a) && !later(a, b),
        i >= a.len() && i >= b.len() ==> !later(a, b) && !later(b, a),
        i < a.len() ==> part(a, i) == a[i],
        i >= a.len() ==> part(a, i) == 0,
{
    if part(a, i) > part(b, i) {
        assert(later_at(a, b, i));
        lemma_not_later(b, a, i);
    }
    if part(a, i) < part(b, i) {
        assert(later_at(b, a, i));
        lemma_not_later(a, b, i);
    }
    if i >= a.len() && i >= b.len() {
        if later(a, b) {
            let k = choose|k: int| later_at(a, b, k);
            assert(k < i ==> part(a, k) == part(b, k));
        }
        if later(b, a) {
            let k = choose|k: int| later_at(b, a, k);
            assert(k < i ==> part(a, k) == part(b, k));
        }
    }
}

} // verus!
