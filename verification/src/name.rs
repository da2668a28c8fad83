//! Synthesized entry names for memory-resident fonts: `"<family>.<index>"`,
//! with a verified decimal rendering of the index and a proof that distinct
//! indices never collide under the same family.

use vstd::prelude::*;
use vstd::string::StringExecFns;

verus! {

/// The character for one decimal digit.
pub open spec fn digit_char(d: int) -> char {
    if d == 0 {
        '0'
    } else if d == 1 {
        '1'
    } else if d == 2 {
        '2'
    } else if d == 3 {
        '3'
    } else if d == 4 {
        '4'
    } else if d == 5 {
        '5'
    } else if d == 6 {
        '6'
    } else if d == 7 {
        '7'
    } else if d == 8 {
        '8'
    } else {
        '9'
    }
}

/// The decimal representation of `n`, most significant digit first, with no
/// leading zeros (the representation of 0 is the single digit `'0'`).
pub open spec fn dec_rep(n: nat) -> Seq<char>
    decreases n,
{
    if n < 10 {
        seq![digit_char(n as int)]
    } else {
        dec_rep(n / 10) + seq![digit_char((n % 10) as int)]
    }
}

/// The synthesized entry name for the memory-resident font at position
/// `idx` of family `family`: the family name, a dot, and the decimal index.
pub open spec fn synth_name(family: Seq<char>, idx: nat) -> Seq<char> {
    family + seq!['.'] + dec_rep(idx)
}

fn digit_str(d: u64) -> (s: &'static str)
    requires
        d < 10,
    ensures
        s@ == seq![digit_char(d as int)],
{
    proof {
        reveal_strlit("0");
        reveal_strlit("1");
        reveal_strlit("2");
        reveal_strlit("3");
        reveal_strlit("4");
        reveal_strlit("5");
        reveal_strlit("6");
        reveal_strlit("7");
        reveal_strlit("8");
        reveal_strlit("9");
    }
    if d == 0 {
        "0"
    } else if d == 1 {
        "1"
    } else if d == 2 {
        "2"
    } else if d == 3 {
        "3"
    } else if d == 4 {
        "4"
    } else if d == 5 {
        "5"
    } else if d == 6 {
        "6"
    } else if d == 7 {
        "7"
    } else if d == 8 {
        "8"
    } else {
        "9"
    }
}

/// Renders `n` in decimal.
pub fn fmt_u64(n: u64) -> (s: String)
    ensures
        s@ == dec_rep(n as nat),
    decreases n,
{
    if n < 10 {
        String::from_str(digit_str(n))
    } else {
        let mut s = fmt_u64(n / 10);
        s.append(digit_str(n % 10));
        s
    }
}

proof fn lemma_dec_rep_len(n: nat)
    ensures
        dec_rep(n).len() >= 1,
        n >= 10 ==> dec_rep(n).len() >= 2,
    decreases n,
{
    if n >= 10 {
        lemma_dec_rep_len(n / 10);
    }
}

/// Decimal representations are injective: distinct numbers render as
/// distinct digit sequences.
pub proof fn lemma_dec_rep_injective(a: nat, b: nat)
    requires
        dec_rep(a) == dec_rep(b),
    ensures
        a == b,
    decreases a,
{
    lemma_dec_rep_len(a);
    lemma_dec_rep_len(b);
    if a < 10 && b < 10 {
        assert(dec_rep(a)[0] == digit_char(a as int));
        assert(dec_rep(b)[0] == digit_char(b as int));
        assert(digit_char(a as int) == digit_char(b as int));
        assert(a == b);
    } else if a < 10 {
        assert(dec_rep(a).len() == 1);
        assert(dec_rep(b).len() >= 2);
    } else if b < 10 {
        assert(dec_rep(a).len() >= 2);
        assert(dec_rep(b).len() == 1);
    } else {
        let da = dec_rep(a / 10);
        let db = dec_rep(b / 10);
        assert(dec_rep(a) == da + seq![digit_char((a % 10) as int)]);
        assert(dec_rep(b) == db + seq![digit_char((b % 10) as int)]);
        assert(da.len() == dec_rep(a).len() - 1);
        assert(db.len() == dec_rep(b).len() - 1);
        assert(dec_rep(a).last() == digit_char((a % 10) as int));
        assert(dec_rep(b).last() == digit_char((b % 10) as int));
        assert(a % 10 == b % 10);
        assert(da =~= dec_rep(a).take(dec_rep(a).len() - 1));
        assert(db =~= dec_rep(b).take(dec_rep(b).len() - 1));
        lemma_dec_rep_injective(a / 10, b / 10);
        assert(a == 10 * (a / 10) + a % 10);
        assert(b == 10 * (b / 10) + b % 10);
    }
}

/// Distinct positions within one family always synthesize distinct entry
/// names, so several memory-resident fonts of the same family never
/// collide in the store.
pub proof fn lemma_synth_names_distinct(family: Seq<char>, i: nat, j: nat)
    requires
        i != j,
    ensures
        synth_name(family, i) != synth_name(family, j),
{
    if synth_name(family, i) == synth_name(family, j) {
        let pre = family + seq!['.'];
        assert(synth_name(family, i) == pre + dec_rep(i));
        assert(synth_name(family, j) == pre + dec_rep(j));
        assert(dec_rep(i) =~= (pre + dec_rep(i)).skip(pre.len() as int));
        assert(dec_rep(j) =~= (pre + dec_rep(j)).skip(pre.len() as int));
        lemma_dec_rep_injective(i, j);
    }
}

/// Builds the synthesized entry name `"<family>.<idx>"` for a
/// memory-resident font.
pub fn synth_entry_name(family: &String, idx: usize) -> (s: String)
    ensures
        s@ == synth_name(family@, idx as nat),
{
    proof {
        reveal_strlit(".");
    }
    let mut s = family.clone();
    s.append(".");
    let digits = fmt_u64(idx as u64);
    s.append(digits.as_str());
    s
}

} // verus!
