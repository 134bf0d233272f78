//! Name spaces of the front-end: raw identifiers, module-resolved names
//! of the textual form `"<index>_<raw>"`, and global names, which pair a
//! module path with a module-resolved name.

use vstd::prelude::*;
use vstd::string::StrSliceExecFns;
use vstd::string::StringExecFns;

verus! {

/// The decimal digit character for a value below ten.
pub open spec fn digit_char(d: nat) -> char {
    if d == 0 {
        '0'
    } else if d == 1 {
        '1'
    } else if d == 2 {
        '2'
    } else if d == 3 {
        '3'
    } else if d == 4 {
        '4'
    } else if d == 5 {
        '5'
    } else if d == 6 {
        '6'
    } else if d == 7 {
        '7'
    } else if d == 8 {
        '8'
    } else {
        '9'
    }
}

pub open spec fn is_digit_char(c: char) -> bool {
    c == '0' || c == '1' || c == '2' || c == '3' || c == '4' || c == '5' || c == '6' || c == '7'
        || c == '8' || c == '9'
}

/// Decimal representation of a natural number, most significant digit first.
pub open spec fn dec_rep(n: nat) -> Seq<char>
    decreases n,
{
    if n < 10 {
        seq![digit_char(n)]
    } else {
        dec_rep(n / 10).push(digit_char(n % 10))
    }
}

/// The textual form of a module-resolved name: the shadow index in
/// decimal, an underscore, then the raw identifier.
pub open spec fn name_parts(idx: nat, raw: Seq<char>) -> Seq<char> {
    dec_rep(idx) + seq!['_'] + raw
}

pub proof fn lemma_dec_rep_props(n: nat)
    ensures
        dec_rep(n).len() >= 1,
        forall|i: int| 0 <= i < dec_rep(n).len() ==> is_digit_char(#[trigger] dec_rep(n)[i]),
    decreases n,
{
    if n >= 10 {
        lemma_dec_rep_props(n / 10);
    }
}

pub proof fn lemma_dec_rep_injective(a: nat, b: nat)
    requires
        dec_rep(a) == dec_rep(b),
    ensures
        a == b,
    decreases a + b,
{
    lemma_dec_rep_props(a);
    lemma_dec_rep_props(b);
    if a < 10 && b < 10 {
        assert(dec_rep(a)[0] == digit_char(a));
        assert(dec_rep(b)[0] == digit_char(b));
    } else if a < 10 && b >= 10 {
        lemma_dec_rep_props(b / 10);
        assert(dec_rep(b).len() >= 2);
    } else if a >= 10 && b < 10 {
        lemma_dec_rep_props(a / 10);
        assert(dec_rep(a).len() >= 2);
    } else {
        assert(dec_rep(a).last() == digit_char(a % 10));
        assert(dec_rep(b).last() == digit_char(b % 10));
        assert(a % 10 == b % 10);
        assert(dec_rep(a).drop_last() =~= dec_rep(a / 10));
        assert(dec_rep(b).drop_last() =~= dec_rep(b / 10));
        lemma_dec_rep_injective(a / 10, b / 10);
        assert(a == (a / 10) * 10 + a % 10) by (nonlinear_arith);
        assert(b == (b / 10) * 10 + b % 10) by (nonlinear_arith);
    }
}

/// Two module-resolved names agree only when both the shadow index and
/// the raw identifier agree: the digits of the index run up to the first
/// underscore, so the textual form decodes uniquely.
pub proof fn lemma_name_parts_injective(i1: nat, r1: Seq<char>, i2: nat, r2: Seq<char>)
    requires
        name_parts(i1, r1) == name_parts(i2, r2),
    ensures
        i1 == i2,
        r1 == r2,
{
    lemma_dec_rep_props(i1);
    lemma_dec_rep_props(i2);
    let s = name_parts(i1, r1);
    let l1 = dec_rep(i1).len() as int;
    let l2 = dec_rep(i2).len() as int;
    assert(s.len() == l1 + 1 + r1.len());
    assert(s.len() == l2 + 1 + r2.len());
    assert(s[l1] == '_');
    assert(s[l2] == '_');
    if l1 < l2 {
        assert(s[l1] == dec_rep(i2)[l1]);
        assert(is_digit_char(dec_rep(i2)[l1]));
        assert(false);
    }
    if l2 < l1 {
        assert(s[l2] == dec_rep(i1)[l2]);
        assert(is_digit_char(dec_rep(i1)[l2]));
        assert(false);
    }
    let t = name_parts(i2, r2);
    assert forall|j: int| 0 <= j < l1 implies dec_rep(i1)[j] == dec_rep(i2)[j] by {
        assert(s[j] == dec_rep(i1)[j]);
        assert(t[j] == dec_rep(i2)[j]);
        assert(s[j] == t[j]);
    }
    assert(dec_rep(i1) =~= dec_rep(i2));
    lemma_dec_rep_injective(i1, i2);
    assert(r1.len() == r2.len());
    assert forall|j: int| 0 <= j < r1.len() implies r1[j] == r2[j] by {
        assert(s[l1 + 1 + j] == r1[j]);
        assert(t[l1 + 1 + j] == r2[j]);
        assert(s[l1 + 1 + j] == t[l1 + 1 + j]);
    }
    assert(r1 =~= r2);
}

fn digit_str(d: usize) -> (r: &'static str)
    requires
        d < 10,
    ensures
        r@ == seq![digit_char(d as nat)],
{
    proof {
        reveal_strlit("0");
        reveal_strlit("1");
        reveal_strlit("2");
        reveal_strlit("3");
        reveal_strlit("4");
        reveal_strlit("5");
        reveal_strlit("6");
        reveal_strlit("7");
        reveal_strlit("8");
        reveal_strlit("9");
    }
    let r = match d {
        0 => "0",
        1 => "1",
        2 => "2",
        3 => "3",
        4 => "4",
        5 => "5",
        6 => "6",
        7 => "7",
        8 => "8",
        _ => "9",
    };
    assert(r@ =~= seq![digit_char(d as nat)]);
    r
}

/// Renders a natural number in decimal.
pub fn itoa(n: usize) -> (r: String)
    ensures
        r@ == dec_rep(n as nat),
    decreases n,
{
    if n < 10 {
        digit_str(n).to_owned()
    } else {
        let mut s = itoa(n / 10);
        s.append(digit_str(n % 10));
        assert(s@ =~= dec_rep(n as nat));
        s
    }
}

/// Mints the textual module-resolved name `"<idx>_<raw>"`.
pub fn name_format(raw: &str, idx: usize) -> (r: String)
    ensures
        r@ == name_parts(idx as nat, raw@),
{
    proof {
        reveal_strlit("_");
    }
    let mut s = itoa(idx);
    s.append("_");
    s.append(raw);
    assert(s@ =~= name_parts(idx as nat, raw@));
    s
}

/// Content equality of two string slices.
pub fn str_eq(a: &str, b: &str) -> (r: bool)
    ensures
        r == (a@ == b@),
{
    let x = a.to_owned();
    let y = b.to_owned();
    x == y
}

/// A globally unique name: the slash-joined module path paired with the
/// module-resolved name of the definition inside that module.
#[derive(Debug, PartialEq)]
pub struct GlobalName {
    pub module: String,
    pub name: String,
}

/// Mathematical model of a global name.
#[verifier::ext_equal]
pub struct GlobalNameV {
    pub module: Seq<char>,
    pub name: Seq<char>,
}

impl View for GlobalName {
    type V = GlobalNameV;

    open spec fn view(&self) -> GlobalNameV {
        GlobalNameV { module: self.module@, name: self.name@ }
    }
}

impl GlobalName {
    pub fn new(module: String, name: String) -> (r: GlobalName)
        ensures
            r@ == (GlobalNameV { module: module@, name: name@ }),
    {
        GlobalName { module, name }
    }

    /// Content equality of two global names.
    pub fn same(&self, other: &GlobalName) -> (r: bool)
        ensures
            r == (self@ == other@),
    {
        let r = self.module == other.module && self.name == other.name;
        if r {
            assert(self@ =~= other@);
        }
        r
    }

    pub fn duplicate(&self) -> (r: GlobalName)
        ensures
            r == *self,
    {
        GlobalName { module: self.module.clone(), name: self.name.clone() }
    }
}

} // verus!
