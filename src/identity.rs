use vstd::prelude::*;

verus! {

/// The decimal digit `d` as a character.
pub open spec fn digit_char(d: nat) -> char {
    if d == 0 {
        '0'
    } else if d == 1 {
        '1'
    } else if d == 2 {
        '2'
    } else if d == 3 {
        '3'
    } else if d == 4 {
        '4'
    } else if d == 5 {
        '5'
    } else if d == 6 {
        '6'
    } else if d == 7 {
        '7'
    } else if d == 8 {
        '8'
    } else {
        '9'
    }
}

/// `n` written in decimal, without leading zeros.
pub open spec fn decimal(n: nat) -> Seq<char>
    decreases n,
{
    if n < 10 {
        seq![digit_char(n)]
    } else {
        decimal(n / 10).push(digit_char(n % 10))
    }
}

/// The label of the window that was issued number `n`.
pub open spec fn window_label(n: nat) -> Seq<char> {
    "window-"@ + decimal(n)
}

proof fn lemma_decimal_len(n: nat)
    ensures
        decimal(n).len() >= 1,
        n >= 10 ==> decimal(n).len() >= 2,
    decreases n,
{
    if n >= 10 {
        lemma_decimal_len(n / 10);
    }
}

proof fn lemma_digit_injective(a: nat, b: nat)
    requires
        a < 10,
        b < 10,
        digit_char(a) == digit_char(b),
    ensures
        a == b,
{
}

/// Distinct numbers have distinct decimal forms.
pub proof fn lemma_decimal_injective(a: nat, b: nat)
    requires
        decimal(a) == decimal(b),
    ensures
        a == b,
    decreases a,
{
    lemma_decimal_len(a);
    lemma_decimal_len(b);
    if a < 10 && b < 10 {
        assert(decimal(a)[0] == digit_char(a));
        assert(decimal(b)[0] == digit_char(b));
        lemma_digit_injective(a, b);
    } else if a >= 10 && b >= 10 {
        let da = decimal(a);
        let db = decimal(b);
        assert(da.last() == digit_char(a % 10));
        assert(db.last() == digit_char(b % 10));
        lemma_digit_injective(a % 10, b % 10);
        assert(decimal(a / 10) =~= da.drop_last());
        assert(decimal(b / 10) =~= db.drop_last());
        lemma_decimal_injective(a / 10, b / 10);
    } else {
        assert(decimal(a).len() != decimal(b).len());
    }
}

/// Windows issued different numbers get different labels.
pub proof fn lemma_labels_distinct(a: nat, b: nat)
    requires
        a != b,
    ensures
        window_label(a) != window_label(b),
{
    let p = "window-"@;
    if window_label(a) == window_label(b) {
        assert(decimal(a) =~= window_label(a).subrange(p.len() as int, window_label(a).len() as int));
        assert(decimal(b) =~= window_label(b).subrange(p.len() as int, window_label(b).len() as int));
        lemma_decimal_injective(a, b);
    }
}

fn digit_string(d: u64) -> (r: String)
    requires
        d < 10,
    ensures
        r@ == seq![digit_char(d as nat)],
{
    let s = if d == 0 {
        "0"
    } else if d == 1 {
        "1"
    } else if d == 2 {
        "2"
    } else if d == 3 {
        "3"
    } else if d == 4 {
        "4"
    } else if d == 5 {
        "5"
    } else if d == 6 {
        "6"
    } else if d == 7 {
        "7"
    } else if d == 8 {
        "8"
    } else {
        "9"
    };
    proof {
        reveal_strlit("0");
        reveal_strlit("1");
        reveal_strlit("2");
        reveal_strlit("3");
        reveal_strlit("4");
        reveal_strlit("5");
        reveal_strlit("6");
        reveal_strlit("7");
        reveal_strlit("8");
        reveal_strlit("9");
    }
    assert(s@ =~= seq![digit_char(d as nat)]);
    String::from_str(s)
}

/// `n` in decimal.
pub fn decimal_string(n: u64) -> (r: String)
    ensures
        r@ == decimal(n as nat),
    decreases n,
{
    if n < 10 {
        digit_string(n)
    } else {
        let mut s = decimal_string(n / 10);
        let last = digit_string(n % 10);
        s.append(last.as_str());
        assert(s@ =~= decimal(n as nat));
        s
    }
}

/// The label of the window issued number `n`.
pub fn label_for(n: u64) -> (r: String)
    ensures
        r@ == window_label(n as nat),
{
    let mut s = String::from_str("window-");
    let digits = decimal_string(n);
    s.append(digits.as_str());
    s
}

/// Hands out window labels from a counter that only ever grows, so that no
/// label is given twice in one process, whatever windows were closed since.
pub struct IdentityGenerator {
    next: u64,
}

impl IdentityGenerator {
    /// The number that the next label will carry.
    pub closed spec fn next_number(&self) -> nat {
        self.next as nat
    }

    /// A generator whose first label is `window-0`.
    pub fn new() -> (r: Self)
        ensures
            r.next_number() == 0,
    {
        IdentityGenerator { next: 0 }
    }

    /// Issues the next label, or `None` once every number has been used.
    pub fn allocate(&mut self) -> (r: Option<String>)
        ensures
            old(self).next_number() < u64::MAX ==> {
                &&& r is Some
                &&& r->0@ == window_label(old(self).next_number())
                &&& final(self).next_number() == old(self).next_number() + 1
            },
            old(self).next_number() == u64::MAX ==> {
                &&& r is None
                &&& final(self).next_number() == old(self).next_number()
            },
    {
        if self.next == u64::MAX {
            None
        } else {
            let label = label_for(self.next);
            self.next = self.next + 1;
            Some(label)
        }
    }
}

} // verus!
