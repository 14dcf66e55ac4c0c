//! The parameters of prepared statements: their values on the wire, and their places in a
//! statement.
use vstd::prelude::*;
use vstd::utf8::{decode_utf8_encode_utf8, encode_utf8, valid_utf8};

use crate::translator::{translation, translations_keep_the_original};
use crate::config::TranslatorConfig;
use crate::executor::PgParam;
use crate::error::{Failure, MiddlewareError};
use crate::laws::records::numbers_read_back;
use crate::params::{
    bound_params, date_literal, datetime_literal, le32, numbered, opaque_len, param_text,
    placeholders, preparable_translation, quoted_len, time_literal, RawParam,
};
use crate::text::{decimal, digits_value, is_number_text, lacks, occurs, padded};

verus! {

/// The two bytes of a number, the lower one first.
pub open spec fn two_bytes(n: nat) -> Seq<u8> {
    seq![(n % 256) as u8, (n / 256) as u8]
}

/// The four bytes of a number, the lowest one first.
pub open spec fn four_bytes(n: nat) -> Seq<u8> {
    seq![(n % 256) as u8, (n / 256 % 256) as u8, (n / 65536 % 256) as u8, (n / 16777216) as u8]
}

/// A date on the wire.
pub open spec fn date_bytes(year: nat, month: nat, day: nat) -> Seq<u8> {
    two_bytes(year) + seq![month as u8, day as u8]
}

/// An hour, a minute and a second on the wire.
pub open spec fn clock_bytes(hour: nat, minute: nat, second: nat) -> Seq<u8> {
    seq![hour as u8, minute as u8, second as u8]
}

/// `YYYY-MM-DD`.
pub open spec fn written_date(year: nat, month: nat, day: nat) -> Seq<char> {
    padded(year, 4) + "-"@ + padded(month, 2) + "-"@ + padded(day, 2)
}

/// `HH:MM:SS`.
pub open spec fn written_clock(hour: nat, minute: nat, second: nat) -> Seq<char> {
    padded(hour, 2) + ":"@ + padded(minute, 2) + ":"@ + padded(second, 2)
}

/// A date and a time that a client sends are bound as the year, month, day, hour, minute,
/// second and fraction that it sent.
pub proof fn datetimes_are_bound_as_sent(
    year: nat,
    month: nat,
    day: nat,
    hour: nat,
    minute: nat,
    second: nat,
    micros: nat,
)
    requires
        year < 65536,
        month < 256,
        day < 256,
        hour < 256,
        minute < 256,
        second < 256,
        micros < 4294967296,
    ensures
        ({
            let date = date_bytes(year, month, day);
            let clock = clock_bytes(hour, minute, second);
            &&& date_literal(date) == Ok::<Seq<char>, Failure>(written_date(year, month, day))
            &&& datetime_literal(date) == Ok::<Seq<char>, Failure>(
                written_date(year, month, day) + " 00:00:00"@,
            )
            &&& datetime_literal(date + clock) == Ok::<Seq<char>, Failure>(
                written_date(year, month, day) + " "@ + written_clock(hour, minute, second),
            )
            &&& datetime_literal(date + clock + four_bytes(micros)) == Ok::<Seq<char>, Failure>(
                written_date(year, month, day) + " "@ + written_clock(hour, minute, second) + "."@ + padded(micros, 6),
            )
        }),
        datetime_literal(Seq::empty()) == Ok::<Seq<char>, Failure>("0000-00-00 00:00:00"@),
{
    let full = date_bytes(year, month, day) + clock_bytes(hour, minute, second) + four_bytes(micros);
    assert(full[4] == hour as u8 && full[5] == minute as u8 && full[6] == second as u8);
    assert(full[7] == (micros % 256) as u8);
    assert(full[8] == (micros / 256 % 256) as u8);
    assert(full[9] == (micros / 65536 % 256) as u8);
    assert(full[10] == (micros / 16777216) as u8);
    assert(micros == micros % 256 + 256 * (micros / 256 % 256) + 65536 * (micros / 65536 % 256) + 16777216 * (micros
        / 16777216));
    assert(year == year % 256 + 256 * (year / 256));
}

/// A date with a time and a fraction is bound as the same date and time without it, followed
/// by the fraction, and with its date first.
pub proof fn fractions_are_added_behind(b: Seq<u8>)
    requires
        b.len() == 11,
    ensures
        ({
            let whole = datetime_literal(b)->Ok_0;
            let clock = datetime_literal(b.take(7))->Ok_0;
            let date = date_literal(b.take(4))->Ok_0;
            &&& datetime_literal(b) is Ok && datetime_literal(b.take(7)) is Ok && date_literal(b.take(4)) is Ok
            &&& clock.len() < whole.len() && whole.take(clock.len() as int) == clock
            &&& whole[clock.len() as int] == '.'
            &&& date.len() < clock.len() && clock.take(date.len() as int) == date
            &&& clock[date.len() as int] == ' '
        }),
{
    reveal_strlit(" ");
    reveal_strlit(".");
    let whole = datetime_literal(b)->Ok_0;
    let clock = datetime_literal(b.take(7))->Ok_0;
    let date = date_literal(b.take(4))->Ok_0;
    assert(whole.take(clock.len() as int) =~= clock);
    assert(clock.take(date.len() as int) =~= date);
}

proof fn lemma_four_bytes(b: Seq<u8>, i: int, n: nat)
    requires
        0 <= i,
        i + 4 <= b.len(),
        n < 4294967296,
        b.subrange(i, i + 4) == four_bytes(n),
    ensures
        le32(b, i) == n,
{
    let four = b.subrange(i, i + 4);
    assert(four[0] == b[i] && four[1] == b[i + 1] && four[2] == b[i + 2] && four[3] == b[i + 3]);
    assert(n == n % 256 + 256 * (n / 256 % 256) + 65536 * (n / 65536 % 256) + 16777216 * (n / 16777216));
}

/// The first byte of a time on the wire.
pub open spec fn sign_byte(negative: bool) -> Seq<u8> {
    if negative {
        seq![1u8]
    } else {
        seq![0u8]
    }
}

/// `HH:MM:SS`, behind a minus sign where the time is negative.
pub open spec fn written_time(negative: bool, hours: nat, minute: nat, second: nat) -> Seq<char> {
    (if negative {
        "-"@
    } else {
        ""@
    }) + padded(hours, 2) + ":"@ + padded(minute, 2) + ":"@ + padded(second, 2)
}

proof fn lemma_short_time(negative: bool, days: nat, hour: nat, minute: nat, second: nat)
    requires
        days < 4294967296,
        hour < 256,
        minute < 256,
        second < 256,
    ensures
        time_literal(sign_byte(negative) + four_bytes(days) + clock_bytes(hour, minute, second)) == Ok::<
            Seq<char>,
            Failure,
        >(written_time(negative, days * 24 + hour, minute, second)),
{
    reveal_strlit("");
    let b = sign_byte(negative) + four_bytes(days) + clock_bytes(hour, minute, second);
    assert(b.subrange(1, 5) =~= four_bytes(days));
    lemma_four_bytes(b, 1, days);
    let text = written_time(negative, days * 24 + hour, minute, second);
    assert(text + ""@ =~= text);
}

proof fn lemma_long_time(negative: bool, days: nat, hour: nat, minute: nat, second: nat, micros: nat)
    requires
        days < 4294967296,
        hour < 256,
        minute < 256,
        second < 256,
        micros < 4294967296,
    ensures
        time_literal(
            sign_byte(negative) + four_bytes(days) + clock_bytes(hour, minute, second) + four_bytes(micros),
        ) == Ok::<Seq<char>, Failure>(
            if micros == 0 {
                written_time(negative, days * 24 + hour, minute, second)
            } else {
                written_time(negative, days * 24 + hour, minute, second) + "."@ + padded(micros, 6)
            },
        ),
{
    reveal_strlit("");
    let b = sign_byte(negative) + four_bytes(days) + clock_bytes(hour, minute, second) + four_bytes(micros);
    assert(b.subrange(1, 5) =~= four_bytes(days));
    assert(b.subrange(8, 12) =~= four_bytes(micros));
    lemma_four_bytes(b, 1, days);
    lemma_four_bytes(b, 8, micros);
    let text = written_time(negative, days * 24 + hour, minute, second);
    assert(text + ""@ =~= text);
    assert(text + ("."@ + padded(micros, 6)) =~= text + "."@ + padded(micros, 6));
}

/// A time that a client sends is bound as its sign, hours, minutes, seconds and fraction, days
/// counted as hours.
pub proof fn times_are_bound_as_sent(negative: bool, days: nat, hour: nat, minute: nat, second: nat, micros: nat)
    requires
        days < 4294967296,
        hour < 256,
        minute < 256,
        second < 256,
        micros < 4294967296,
    ensures
        ({
            let short = sign_byte(negative) + four_bytes(days) + clock_bytes(hour, minute, second);
            let text = written_time(negative, days * 24 + hour, minute, second);
            &&& time_literal(short) == Ok::<Seq<char>, Failure>(text)
            &&& time_literal(short + four_bytes(micros)) == Ok::<Seq<char>, Failure>(
                if micros == 0 {
                    text
                } else {
                    text + "."@ + padded(micros, 6)
                },
            )
        }),
{
    lemma_short_time(negative, days, hour, minute, second);
    lemma_long_time(negative, days, hour, minute, second, micros);
}

/// Lengths that no date, date with a time, or time has on the wire are refused.
pub proof fn odd_lengths_are_refused(b: Seq<u8>)
    ensures
        date_literal(b) is Ok <==> b.len() == 4,
        datetime_literal(b) is Ok <==> (b.len() == 0 || b.len() == 4 || b.len() == 7 || b.len() == 11),
        time_literal(b) is Ok <==> (b.len() == 8 || b.len() == 12),
{
}

/// A whole number is bound as digits that are read as that number, behind a minus sign where it
/// is negative. A null stays null, and a text is bound as the text of those bytes.
pub proof fn scalars_are_bound_as_sent(n: i64, u: u64, bytes: Vec<u8>, number: String)
    ensures
        valid_utf8(bytes@) ==> (param_text(RawParam::Bytes(bytes)) matches Ok(Some(s)) && encode_utf8(s) == bytes@),
        !valid_utf8(bytes@) ==> param_text(RawParam::Bytes(bytes)) is Err,
        param_text(RawParam::Number(number)) == Ok::<Option<Seq<char>>, Failure>(Some(number@)),
        n >= 0 ==> (param_text(RawParam::Int(n)) matches Ok(Some(s)) && is_number_text(s) && digits_value(s) == n),
        n < 0 ==> (param_text(RawParam::Int(n)) matches Ok(Some(s)) && s.len() > 0 && s[0] == '-' && is_number_text(
            s.skip(1),
        ) && digits_value(s.skip(1)) == -n),
        param_text(RawParam::UInt(u)) matches Ok(Some(s)) && is_number_text(s) && digits_value(s) == u,
        param_text(RawParam::Null) matches Ok(None),
{
    reveal_strlit("-");
    if valid_utf8(bytes@) {
        decode_utf8_encode_utf8(bytes@);
    }
    numbers_read_back(u as nat, 0);
    if n >= 0 {
        numbers_read_back(n as nat, 0);
    } else {
        numbers_read_back((-n) as nat, 0);
        let s = "-"@ + decimal((-n) as nat);
        assert(s.skip(1) =~= decimal((-n) as nat));
    }
}

/// A date, a date with a time and a time are each read as what they are, and refused where they
/// cannot be.
pub proof fn temporal_values_are_read_by_their_type(b: Vec<u8>)
    ensures
        b@.len() == 4 ==> param_text(RawParam::Date(b)) == Ok::<Option<Seq<char>>, Failure>(
            Some(date_literal(b@)->Ok_0),
        ),
        b@.len() == 7 || b@.len() == 11 ==> param_text(RawParam::Datetime(b)) == Ok::<Option<Seq<char>>, Failure>(
            Some(datetime_literal(b@)->Ok_0),
        ),
        b@.len() == 8 || b@.len() == 12 ==> param_text(RawParam::Time(b)) == Ok::<Option<Seq<char>>, Failure>(
            Some(time_literal(b@)->Ok_0),
        ),
        b@.len() != 4 ==> param_text(RawParam::Date(b)) is Err,
        b@.len() != 8 && b@.len() != 12 ==> param_text(RawParam::Time(b)) is Err,
{
}

/// Whether a text has no quote, no comment and no placeholder in it.
pub open spec fn is_plain_sql(t: Seq<char>) -> bool {
    forall|i: int|
        0 <= i < t.len() ==> (#[trigger] t[i]) != '\'' && t[i] != '"' && t[i] != '`' && t[i] != '#' && t[i] != '-' && t[i]
            != '/' && t[i] != '?'
}

proof fn lemma_plain_front(a: Seq<char>, b: Seq<char>, n: nat)
    requires
        is_plain_sql(a),
    ensures
        numbered(a + b, n) == a + numbered(b, n),
        placeholders(a + b) == placeholders(b),
    decreases a.len(),
{
    if a.len() == 0 {
        assert(a + b =~= b);
        assert(a + numbered(b, n) =~= numbered(b, n));
    } else {
        let t = a + b;
        assert(t[0] == a[0]);
        assert(opaque_len(t) == 0);
        assert(t.skip(1) =~= a.skip(1) + b);
        assert(is_plain_sql(a.skip(1))) by {
            assert forall|i: int| 0 <= i < a.skip(1).len() implies (#[trigger] a.skip(1)[i]) == a[i + 1] by {}
        }
        lemma_plain_front(a.skip(1), b, n);
        assert(seq![a[0]] + (a.skip(1) + numbered(b, n)) =~= a + numbered(b, n));
    }
}

/// The placeholders of a statement are numbered one after the other, from the left: the next
/// one takes the next number, and what stands before it stays.
pub proof fn placeholders_are_numbered_in_order(a: Seq<char>, b: Seq<char>, n: nat)
    requires
        is_plain_sql(a),
    ensures
        numbered(a + seq!['?'] + b, n) == a + ("$"@ + decimal(n + 1)) + numbered(b, n + 1),
        placeholders(a + seq!['?'] + b) == 1 + placeholders(b),
        numbered(a, n) == a,
        placeholders(a) == 0,
{
    let q = seq!['?'] + b;
    assert(a + seq!['?'] + b =~= a + q);
    lemma_plain_front(a, q, n);
    assert(q[0] == '?');
    assert(opaque_len(q) == 0);
    assert(q.skip(1) =~= b);
    assert(a + (("$"@ + decimal(n + 1)) + numbered(b, n + 1)) =~= a + ("$"@ + decimal(n + 1)) + numbered(b, n + 1));
    lemma_plain_front(a, Seq::empty(), n);
    assert(a + Seq::<char>::empty() =~= a);
}

/// The parameters that are bound are those that were sent, one for one and in order: a null as a
/// null, and anything else as its text.
pub proof fn parameters_are_bound_one_for_one(list: Vec<PgParam>, params: Seq<RawParam>, i: int)
    requires
        bound_params(Ok::<Vec<PgParam>, MiddlewareError>(list), params),
        0 <= i < params.len(),
    ensures
        list@.len() == params.len(),
        params[i] is Null ==> list@[i] is Null,
        list@[i] matches PgParam::Text(s) ==> param_text(params[i]) == Ok::<Option<Seq<char>>, Failure>(Some(s@)),
        list@[i] is Null ==> param_text(params[i]) == Ok::<Option<Seq<char>>, Failure>(None),
        !(list@[i] is Bytes),
{
    assert(param_text(params[i]) is Ok);
}

/// A statement that is prepared keeps its own text, whether it was translated as it is or with its
/// placeholders marked.
pub proof fn prepared_statements_keep_their_text(sql: Seq<char>, cfg: TranslatorConfig)
    ensures
        preparable_translation(sql, cfg) matches Ok(t) ==> t.original_sql == sql,
        translation(sql, cfg) is Ok ==> preparable_translation(sql, cfg) == translation(sql, cfg),
        translation(sql, cfg) is Err && !occurs(sql, "?"@) ==> preparable_translation(sql, cfg) == translation(sql, cfg),
{
    translations_keep_the_original(sql, cfg);
}

/// A placeholder inside quotes is no placeholder: the quoted fragment stays as it is.
pub proof fn quoted_placeholders_are_kept(v: Seq<char>, b: Seq<char>, n: nat, q: char)
    requires
        q == '\'' || q == '"' || q == '`',
        lacks(v, q),
        lacks(v, '\\'),
    ensures
        numbered(seq![q] + v + seq![q] + b, n) == seq![q] + v + seq![q] + numbered(b, n),
        placeholders(seq![q] + v + seq![q] + b) == placeholders(b),
{
    let t = seq![q] + v + seq![q] + b;
    let k = (v.len() + 2) as int;
    lemma_quoted(v, b, q, q != '`');
    assert(t[0] == q);
    assert(t.skip(1) =~= v + seq![q] + b);
    assert(opaque_len(t) == k);
    assert(t.take(k) =~= seq![q] + v + seq![q]);
    assert(t.skip(k) =~= b);
}

proof fn lemma_quoted(v: Seq<char>, b: Seq<char>, q: char, escapes: bool)
    requires
        lacks(v, q),
        lacks(v, '\\'),
        q != '\\',
    ensures
        quoted_len(v + seq![q] + b, q, escapes) == v.len() + 1,
    decreases v.len(),
{
    let t = v + seq![q] + b;
    if v.len() > 0 {
        assert(t[0] == v[0]);
        assert(t.skip(1) =~= v.skip(1) + seq![q] + b);
        assert(lacks(v.skip(1), q) && lacks(v.skip(1), '\\')) by {
            assert forall|i: int| 0 <= i < v.skip(1).len() implies #[trigger] v.skip(1)[i] == v[i + 1] by {}
        }
        lemma_quoted(v.skip(1), b, q, escapes);
    } else {
        assert(t[0] == q);
    }
}

} // verus!
