//! How the parts of a record are read after one of them was changed, and numbers after they
//! were written.
use vstd::prelude::*;

use crate::text::{decimal, digit, digits_value, is_digit, is_number_text, padded};
use crate::tree::{field, first_field, part, with_field, Tree};

verus! {

proof fn lemma_other_field(
    old: Seq<(Seq<char>, Tree)>,
    new: Seq<(Seq<char>, Tree)>,
    key: Seq<char>,
    other: Seq<char>,
    from: int,
)
    requires
        old.len() == new.len(),
        0 <= from <= old.len(),
        key != other,
        forall|i: int| 0 <= i < old.len() ==> (#[trigger] new[i]).0 == old[i].0,
        forall|i: int| 0 <= i < old.len() && old[i].0 != key ==> #[trigger] new[i] == old[i],
    ensures
        first_field(new, other, from) == first_field(old, other, from),
    decreases old.len() - from,
{
    if from < old.len() {
        assert(new[from].0 == old[from].0);
        lemma_other_field(old, new, key, other, from + 1);
    }
}

proof fn lemma_same_field(
    old: Seq<(Seq<char>, Tree)>,
    new: Seq<(Seq<char>, Tree)>,
    key: Seq<char>,
    value: Tree,
    from: int,
)
    requires
        old.len() == new.len(),
        0 <= from <= old.len(),
        forall|i: int| 0 <= i < from ==> (#[trigger] old[i]).0 != key,
        forall|i: int| 0 <= i < old.len() ==> (#[trigger] new[i]).0 == old[i].0,
        forall|i: int|
            0 <= i < old.len() && old[i].0 == key && (forall|j: int| 0 <= j < i ==> (#[trigger] old[j]).0 != key)
                ==> (#[trigger] new[i]).1 == value,
    ensures
        first_field(old, key, from) is Some ==> first_field(new, key, from) == Some(value),
        first_field(old, key, from) is None ==> first_field(new, key, from) is None,
    decreases old.len() - from,
{
    if from < old.len() {
        assert(new[from].0 == old[from].0);
        if old[from].0 != key {
            lemma_same_field(old, new, key, value, from + 1);
        } else {
            assert(new[from].1 == value);
        }
    }
}

/// A part that is changed is read as it was given, where the record has it, and every other
/// part is read as before.
pub proof fn changed_parts_are_read(t: Tree, key: Seq<char>, value: Tree, other: Seq<char>)
    ensures
        field(t, key) is Some ==> field(with_field(t, key, value), key) == Some(value),
        field(t, key) is None ==> field(with_field(t, key, value), key) is None,
        other != key ==> field(with_field(t, key, value), other) == field(t, other),
        other != key ==> part(with_field(t, key, value), other) == part(t, other),
{
    match t {
        Tree::Record(old) => {
            let new = with_field(t, key, value)->Record_0;
            assert(new.len() == old.len());
            lemma_same_field(old, new, key, value, 0);
            if other != key {
                lemma_other_field(old, new, key, other, 0);
            }
        },
        _ => {},
    }
}

proof fn lemma_digits_read(n: nat)
    ensures
        digits_value(decimal(n)) == n,
        is_number_text(decimal(n)),
    decreases n,
{
    if n < 10 {
        let s = seq![digit(n)];
        assert(s.drop_last() =~= Seq::<char>::empty());
        assert(digits_value(s.drop_last()) == 0);
        assert(s.last() == digit(n));
    } else {
        lemma_digits_read(n / 10);
        let s = decimal(n);
        assert(s.drop_last() =~= decimal(n / 10));
        assert(s.last() == digit(n % 10));
        assert forall|i: int| 0 <= i < s.len() implies is_digit(#[trigger] s[i]) by {
            if i < s.len() - 1 {
                assert(s[i] == decimal(n / 10)[i]);
            }
        }
    }
}

proof fn lemma_zeros_in_front(k: nat, s: Seq<char>)
    ensures
        digits_value(Seq::new(k, |i: int| '0') + s) == digits_value(s),
    decreases s.len() + k,
{
    let z = Seq::new(k, |i: int| '0');
    let t = z + s;
    if s.len() > 0 {
        assert(t.drop_last() =~= z + s.drop_last());
        assert(t.last() == s.last());
        lemma_zeros_in_front(k, s.drop_last());
    } else if k > 0 {
        assert(t.last() == '0');
        assert(t.drop_last() =~= Seq::new((k - 1) as nat, |i: int| '0') + s);
        lemma_zeros_in_front((k - 1) as nat, s);
    } else {
        assert(t =~= s);
    }
}

/// A number is written in digits that are read as that number again, with or without zeros in
/// front, and in no fewer digits than were asked for.
pub proof fn numbers_read_back(n: nat, width: nat)
    ensures
        is_number_text(decimal(n)),
        digits_value(decimal(n)) == n,
        is_number_text(padded(n, width)),
        digits_value(padded(n, width)) == n,
        padded(n, width).len() >= width,
        decimal(n).len() <= width ==> padded(n, width).len() == width,
{
    lemma_digits_read(n);
    let digits = decimal(n);
    if digits.len() < width {
        lemma_zeros_in_front((width - digits.len()) as nat, digits);
        let s = padded(n, width);
        assert forall|i: int| 0 <= i < s.len() implies is_digit(#[trigger] s[i]) by {
            if i >= width - digits.len() {
                assert(s[i] == digits[i - (width - digits.len())]);
            }
        }
    }
}

} // verus!
