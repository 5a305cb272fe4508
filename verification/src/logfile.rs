use vstd::prelude::*;
use vstd::string::*;

verus! {

/// The character of a decimal digit.
pub open spec fn digit_char(d: int) -> char {
    (48 + d) as char
}

/// The decimal notation of `n`, without leading zeros.
pub open spec fn decimal(n: nat) -> Seq<char>
    decreases n,
{
    if n < 10 {
        seq![digit_char(n as int)]
    } else {
        decimal(n / 10).push(digit_char((n % 10) as int))
    }
}

/// What follows the timestamp in a log file name: `.log` for the first attempt,
/// `-<attempt>.log` for later ones.
pub open spec fn log_tail(attempt: u64) -> Seq<char> {
    if attempt == 0 {
        ".log"@
    } else {
        "-"@ + (decimal(attempt as nat) + ".log"@)
    }
}

/// The name of the log file of a run started at `timestamp` (seconds since the
/// Unix epoch): `shutdown-helper-<timestamp>.log` on the first attempt, and
/// `shutdown-helper-<timestamp>-<attempt>.log` when earlier names were taken.
pub open spec fn log_name(timestamp: u64, attempt: u64) -> Seq<char> {
    "shutdown-helper-"@ + (decimal(timestamp as nat) + log_tail(attempt))
}

/// The names of a list of files.
pub open spec fn names_view(names: Seq<String>) -> Seq<Seq<char>> {
    names.map_values(|s: String| s@)
}

/// A decimal digit character.
pub open spec fn is_digit(c: char) -> bool {
    48 <= c as int <= 57
}

/// Every character of the sequence is a decimal digit.
pub open spec fn all_digits(s: Seq<char>) -> bool {
    forall|i: int| 0 <= i < s.len() ==> is_digit(#[trigger] s[i])
}

fn digit_text(d: u64) -> (s: &'static str)
    requires
        d < 10,
    ensures
        s@ == seq![digit_char(d as int)],
{
    proof {
        reveal_strlit("0");
        reveal_strlit("1");
        reveal_strlit("2");
        reveal_strlit("3");
        reveal_strlit("4");
        reveal_strlit("5");
        reveal_strlit("6");
        reveal_strlit("7");
        reveal_strlit("8");
        reveal_strlit("9");
    }
    let s = if d == 0 {
        "0"
    } else if d == 1 {
        "1"
    } else if d == 2 {
        "2"
    } else if d == 3 {
        "3"
    } else if d == 4 {
        "4"
    } else if d == 5 {
        "5"
    } else if d == 6 {
        "6"
    } else if d == 7 {
        "7"
    } else if d == 8 {
        "8"
    } else {
        "9"
    };
    assert(s@ =~= seq![digit_char(d as int)]);
    s
}

/// Appends the decimal notation of `n` to `s`.
fn append_decimal(s: &mut String, n: u64)
    ensures
        final(s)@ == old(s)@ + decimal(n as nat),
    decreases n,
{
    if n >= 10 {
        append_decimal(s, n / 10);
    }
    s.append(digit_text(n % 10));
    assert(s@ =~= old(s)@ + decimal(n as nat));
}

proof fn lemma_decimal_shape(n: nat)
    ensures
        decimal(n).len() >= 1,
        n >= 10 ==> decimal(n).len() >= 2,
        decimal(n).last() == digit_char((n % 10) as int),
        n >= 10 ==> decimal(n).drop_last() == decimal(n / 10),
    decreases n,
{
    if n >= 10 {
        lemma_decimal_shape(n / 10);
        assert(decimal(n).drop_last() =~= decimal(n / 10));
    }
}

proof fn lemma_digit_char_injective(a: int, b: int)
    requires
        0 <= a < 10,
        0 <= b < 10,
        digit_char(a) == digit_char(b),
    ensures
        a == b,
{
    assert(digit_char(a) as int == 48 + a);
    assert(digit_char(b) as int == 48 + b);
}

/// Decimal notation is unambiguous: two numbers with the same notation are equal.
pub proof fn lemma_decimal_injective(a: nat, b: nat)
    requires
        decimal(a) == decimal(b),
    ensures
        a == b,
    decreases a,
{
    lemma_decimal_shape(a);
    lemma_decimal_shape(b);
    lemma_digit_char_injective((a % 10) as int, (b % 10) as int);
    if a >= 10 && b >= 10 {
        lemma_decimal_injective(a / 10, b / 10);
    }
}

proof fn lemma_decimal_digits(n: nat)
    ensures
        all_digits(decimal(n)),
    decreases n,
{
    assert(digit_char((n % 10) as int) as int == 48 + n % 10);
    if n >= 10 {
        lemma_decimal_digits(n / 10);
        assert forall|i: int| 0 <= i < decimal(n).len() implies is_digit(#[trigger] decimal(n)[i]) by {
            if i < decimal(n / 10).len() {
                assert(decimal(n)[i] == decimal(n / 10)[i]);
            }
        }
    } else {
        assert(decimal(n) =~= seq![digit_char(n as int)]);
    }
}

/// A run of digits followed by a non-digit splits one way only.
proof fn lemma_split_after_digits(d1: Seq<char>, r1: Seq<char>, d2: Seq<char>, r2: Seq<char>)
    requires
        all_digits(d1),
        all_digits(d2),
        r1.len() > 0,
        r2.len() > 0,
        !is_digit(r1[0]),
        !is_digit(r2[0]),
        d1 + r1 == d2 + r2,
    ensures
        d1 == d2,
        r1 == r2,
{
    let s = d1 + r1;
    if d1.len() < d2.len() {
        assert(s[d1.len() as int] == r1[0]);
        assert((d2 + r2)[d1.len() as int] == d2[d1.len() as int]);
        assert(is_digit(d2[d1.len() as int]));
    } else if d2.len() < d1.len() {
        assert((d2 + r2)[d2.len() as int] == r2[0]);
        assert(s[d2.len() as int] == d1[d2.len() as int]);
        assert(is_digit(d1[d2.len() as int]));
    }
    assert(d1 =~= s.subrange(0, d1.len() as int));
    assert(d2 =~= (d2 + r2).subrange(0, d2.len() as int));
    assert(r1 =~= s.subrange(d1.len() as int, s.len() as int));
    assert(r2 =~= (d2 + r2).subrange(d2.len() as int, s.len() as int));
}

/// Log file names are unambiguous: two different (timestamp, attempt) pairs
/// never give the same name.
pub proof fn lemma_log_names_distinct(t1: u64, a1: u64, t2: u64, a2: u64)
    requires
        t1 != t2 || a1 != a2,
    ensures
        log_name(t1, a1) != log_name(t2, a2),
{
    let p = "shutdown-helper-"@;
    if log_name(t1, a1) == log_name(t2, a2) {
        let x1 = decimal(t1 as nat) + log_tail(a1);
        let x2 = decimal(t2 as nat) + log_tail(a2);
        assert(x1 =~= log_name(t1, a1).subrange(p.len() as int, log_name(t1, a1).len() as int));
        assert(x2 =~= log_name(t2, a2).subrange(p.len() as int, log_name(t2, a2).len() as int));
        reveal_strlit(".log");
        reveal_strlit("-");
        lemma_decimal_digits(t1 as nat);
        lemma_decimal_digits(t2 as nat);
        assert(log_tail(a1)[0] == '.' || log_tail(a1)[0] == '-');
        assert(log_tail(a2)[0] == '.' || log_tail(a2)[0] == '-');
        lemma_split_after_digits(decimal(t1 as nat), log_tail(a1), decimal(t2 as nat), log_tail(a2));
        lemma_decimal_injective(t1 as nat, t2 as nat);
        if a1 != 0 && a2 != 0 {
            let y1 = decimal(a1 as nat) + ".log"@;
            let y2 = decimal(a2 as nat) + ".log"@;
            assert(y1 =~= log_tail(a1).drop_first());
            assert(y2 =~= log_tail(a2).drop_first());
            lemma_decimal_digits(a1 as nat);
            lemma_decimal_digits(a2 as nat);
            lemma_split_after_digits(decimal(a1 as nat), ".log"@, decimal(a2 as nat), ".log"@);
            lemma_decimal_injective(a1 as nat, a2 as nat);
        }
    }
}

/// If the first `n` candidate names for `timestamp` are all among `taken`, there
/// are at least `n` taken names.
proof fn lemma_candidates_fit(timestamp: u64, n: nat, taken: Seq<Seq<char>>)
    requires
        n <= u64::MAX + 1,
        forall|k: int| 0 <= k < n ==> taken.contains(#[trigger] log_name(timestamp, k as u64)),
    ensures
        n <= taken.len(),
{
    broadcast use vstd::seq_lib::seq_to_set_is_finite;
    let cands = Seq::new(n, |k: int| log_name(timestamp, k as u64));
    assert forall|i: int, j: int| 0 <= i < cands.len() && 0 <= j < cands.len() && i != j implies cands[i]
        != cands[j] by {
        lemma_log_names_distinct(timestamp, i as u64, timestamp, j as u64);
    }
    cands.unique_seq_to_set();
    assert forall|x: Seq<char>| cands.to_set().contains(x) implies taken.to_set().contains(x) by {
        let k = choose|k: int| 0 <= k < cands.len() && cands[k] == x;
        assert(taken.contains(log_name(timestamp, k as u64)));
    }
    vstd::set_lib::lemma_len_subset(cands.to_set(), taken.to_set());
    taken.lemma_cardinality_of_set();
}

/// The log file name for attempt `attempt` of a run started at `timestamp`.
pub fn log_file_name(timestamp: u64, attempt: u64) -> (name: String)
    ensures
        name@ == log_name(timestamp, attempt),
{
    let mut name = String::from_str("shutdown-helper-");
    append_decimal(&mut name, timestamp);
    if attempt > 0 {
        name.append("-");
        append_decimal(&mut name, attempt);
    }
    name.append(".log");
    assert(name@ =~= log_name(timestamp, attempt));
    name
}

fn is_taken(taken: &Vec<String>, name: &String) -> (r: bool)
    ensures
        r == names_view(taken@).contains(name@),
{
    let ghost v = names_view(taken@);
    let mut i: usize = 0;
    while i < taken.len()
        invariant
            i <= taken@.len(),
            v == names_view(taken@),
            forall|j: int| 0 <= j < i ==> v[j] != name@,
        decreases taken@.len() - i,
    {
        if taken[i] == *name {
            assert(v[i as int] == name@);
            return true;
        }
        i = i + 1;
    }
    false
}

/// A log file name for a run started at `timestamp` that is none of the `taken`
/// names (the files already in the log directory): the first attempt whose name
/// is free.
pub fn fresh_log_file_name(timestamp: u64, taken: &Vec<String>) -> (name: String)
    ensures
        !names_view(taken@).contains(name@),
        exists|attempt: u64|
            name@ == log_name(timestamp, attempt) && forall|k: u64|
                k < attempt ==> names_view(taken@).contains(#[trigger] log_name(timestamp, k)),
{
    let ghost v = names_view(taken@);
    let count = taken.len();
    let mut attempt: usize = 0;
    loop
        invariant
            v == names_view(taken@),
            count == taken@.len(),
            attempt <= taken@.len(),
            forall|k: int| 0 <= k < attempt ==> v.contains(#[trigger] log_name(timestamp, k as u64)),
        decreases taken@.len() - attempt,
    {
        let name = log_file_name(timestamp, attempt as u64);
        if !is_taken(taken, &name) {
            assert forall|k: u64| k < attempt as u64 implies v.contains(#[trigger] log_name(timestamp, k)) by {
                assert(v.contains(log_name(timestamp, (k as int) as u64)));
            }
            return name;
        }
        proof {
            assert(v.contains(log_name(timestamp, attempt as u64)));
            lemma_candidates_fit(timestamp, (attempt + 1) as nat, v);
            assert(v.len() == taken@.len());
        }
        attempt = attempt + 1;
    }
}

/// The number a string of decimal digits stands for.
pub open spec fn digits_value(s: Seq<char>) -> int
    decreases s.len(),
{
    if s.len() == 0 {
        0
    } else {
        digits_value(s.drop_last()) * 10 + (s.last() as int - 48)
    }
}

proof fn lemma_decimal_reads_back(n: nat)
    ensures
        digits_value(decimal(n)) == n,
        all_digits(decimal(n)),
        decimal(n).len() > 0,
    decreases n,
{
    lemma_decimal_digits(n);
    lemma_decimal_shape(n);
    assert(digit_char((n % 10) as int) as int == 48 + n % 10);
    if n >= 10 {
        lemma_decimal_reads_back(n / 10);
        assert(decimal(n).drop_last() == decimal(n / 10));
        assert(decimal(n).last() as int - 48 == n % 10);
        assert(digits_value(decimal(n)) == digits_value(decimal(n / 10)) * 10 + n % 10);
        assert((n / 10) * 10 + n % 10 == n);
    } else {
        assert(decimal(n).drop_last() =~= Seq::<char>::empty());
        assert(decimal(n).last() as int - 48 == n);
        assert(digits_value(decimal(n)) == digits_value(Seq::<char>::empty()) * 10 + n);
    }
}

/// The first-attempt log file name is `shutdown-helper-`, then a run of decimal
/// digits that reads back as the timestamp, then `.log`.
pub proof fn lemma_log_name_shows_timestamp(t: u64)
    ensures
        log_name(t, 0).len() > 20,
        log_name(t, 0).subrange(0, 16) == "shutdown-helper-"@,
        log_name(t, 0).subrange(log_name(t, 0).len() - 4, log_name(t, 0).len() as int) == ".log"@,
        all_digits(log_name(t, 0).subrange(16, log_name(t, 0).len() - 4)),
        digits_value(log_name(t, 0).subrange(16, log_name(t, 0).len() - 4)) == t,
{
    reveal_strlit("shutdown-helper-");
    reveal_strlit(".log");
    let d = decimal(t as nat);
    lemma_decimal_reads_back(t as nat);
    let s = log_name(t, 0);
    assert(s == "shutdown-helper-"@ + (d + ".log"@));
    assert(s.subrange(0, 16) =~= "shutdown-helper-"@);
    assert(s.subrange(s.len() - 4, s.len() as int) =~= ".log"@);
    assert(s.subrange(16, s.len() - 4) =~= d);
}

/// A later-attempt log file name is `shutdown-helper-`, the timestamp's digits,
/// `-`, the attempt's digits and `.log`, each run of digits reading back as its
/// number.
pub proof fn lemma_log_name_shows_attempt(t: u64, a: u64)
    requires
        a > 0,
    ensures
        exists|d: Seq<char>, e: Seq<char>|
            #![trigger digits_value(d), digits_value(e)]
            log_name(t, a) == "shutdown-helper-"@ + d + "-"@ + e + ".log"@ && all_digits(d)
                && all_digits(e) && d.len() > 0 && e.len() > 0 && digits_value(d) == t
                && digits_value(e) == a,
{
    let d = decimal(t as nat);
    let e = decimal(a as nat);
    lemma_decimal_reads_back(t as nat);
    lemma_decimal_reads_back(a as nat);
    assert(log_name(t, a) =~= "shutdown-helper-"@ + d + "-"@ + e + ".log"@);
    assert(digits_value(d) == t && digits_value(e) == a);
}

} // verus!
