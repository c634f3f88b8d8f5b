//! Small string helpers: joining pieces and writing numbers in decimal.

use vstd::prelude::*;
use vstd::string::*;

verus! {

/// The character that stands for the digit `d`, for `d` below ten.
pub open spec fn digit(d: nat) -> char {
    ((48 + d) as u8) as char
}

/// The decimal notation of `n`, most significant digit first, without
/// leading zeros.
pub open spec fn decimal(n: nat) -> Seq<char>
    decreases n,
{
    if n < 10 {
        seq![digit(n)]
    } else {
        decimal(n / 10).push(digit(n % 10))
    }
}

/// Writes `n` in decimal.
pub fn decimal_string(n: usize) -> (text: String)
    ensures
        text@ == decimal(n as nat),
{
    let digits = "0123456789";
    proof {
        reveal_strlit("0123456789");
    }
    let d: usize = n % 10;
    let mut text = String::from_str(digits.substring_ascii(d, d + 1));
    let mut rest: usize = n / 10;
    assert(text@ =~= seq![digit(d as nat)]);
    while rest > 0
        invariant
            digits@ == "0123456789"@,
            digits.is_ascii(),
            decimal(n as nat) == (if rest > 0 {
                decimal(rest as nat) + text@
            } else {
                text@
            }),
        decreases rest,
    {
        proof {
            reveal_strlit("0123456789");
        }
        let d: usize = rest % 10;
        let head = String::from_str(digits.substring_ascii(d, d + 1));
        assert(head@ =~= seq![digit(d as nat)]);
        let ghost tail = text@;
        text = head.concat(text.as_str());
        proof {
            if rest >= 10 {
                assert(decimal(rest as nat) == decimal((rest / 10) as nat).push(digit(d as nat)));
                assert(decimal(rest as nat) + tail =~= decimal((rest / 10) as nat) + text@);
            } else {
                assert(decimal(rest as nat) + tail =~= text@);
            }
        }
        rest = rest / 10;
    }
    text
}

/// The two pieces one after the other.
pub fn join(head: &str, tail: &str) -> (text: String)
    ensures
        text@ == head@ + tail@,
{
    let mut text = String::from_str(head);
    text.append(tail);
    text
}

/// Whether two strings hold the same characters.
pub fn same_text(a: &str, b: &str) -> (same: bool)
    ensures
        same == (a@ == b@),
{
    String::from_str(a) == String::from_str(b)
}

/// Whether `name` stands first at position `at` of `names`.
pub open spec fn first_at(names: Seq<String>, name: Seq<char>, at: int) -> bool {
    &&& 0 <= at < names.len()
    &&& names[at]@ == name
    &&& forall|j: int| 0 <= j < at ==> (#[trigger] names[j])@ != name
}

/// Whether `name` is among `names`.
pub open spec fn listed(names: Seq<String>, name: Seq<char>) -> bool {
    exists|i: int| 0 <= i < names.len() && (#[trigger] names[i])@ == name
}

/// The first position at which `name` stands in `names`.
pub fn position(names: &Vec<String>, name: &str) -> (found: Option<usize>)
    ensures
        match found {
            Some(at) => first_at(names@, name@, at as int),
            None => !listed(names@, name@),
        },
{
    let mut at: usize = 0;
    while at < names.len()
        invariant
            at <= names.len(),
            forall|j: int| 0 <= j < at ==> (#[trigger] names@[j])@ != name@,
        decreases names.len() - at,
    {
        if same_text(names[at].as_str(), name) {
            return Some(at);
        }
        at += 1;
    }
    None
}

/// The first position at which `name` stands in `names`.
pub open spec fn first_of(names: Seq<Seq<char>>, name: Seq<char>) -> Option<int>
    decreases names.len(),
{
    if names.len() == 0 {
        None
    } else {
        match first_of(names.drop_last(), name) {
            Some(at) => Some(at),
            None => if names.last() == name {
                Some(names.len() - 1)
            } else {
                None
            },
        }
    }
}

/// [`first_of`] finds the first position, and finds none only where there is
/// none.
pub proof fn lemma_first_of(names: Seq<Seq<char>>, name: Seq<char>)
    ensures
        match first_of(names, name) {
            Some(at) => {
                &&& 0 <= at < names.len()
                &&& names[at] == name
                &&& forall|j: int| 0 <= j < at ==> #[trigger] names[j] != name
            },
            None => forall|j: int| 0 <= j < names.len() ==> #[trigger] names[j] != name,
        },
    decreases names.len(),
{
    if names.len() > 0 {
        let front = names.drop_last();
        lemma_first_of(front, name);
        assert(forall|j: int| 0 <= j < front.len() ==> front[j] == names[j]);
    }
}

/// Adds `item` at the end of `list`.
pub fn push_deep<T: DeepView>(list: &mut Vec<T>, item: T)
    ensures
        final(list)@ == old(list)@.push(item),
        final(list).deep_view() == old(list).deep_view().push(item.deep_view()),
{
    list.push(item);
    assert(list.deep_view() =~= old(list).deep_view().push(item.deep_view()));
}

} // verus!
