//! Rows as lines of JSON.
use vstd::prelude::*;
use vstd::utf8::encode_utf8;

use crate::cell::{
    date_text, time_text, uuid_text, ArrayCell, Cell, Date, Float, PgNumeric, TableRow, Time,
    Timestamp, Uuid,
};
use crate::error::{collected, law_first_error_decides, lemma_collected_error};
use crate::schema::ColumnSchema;
use crate::snowflake::error::{Error, SnowflakeResult};
use crate::snowflake::schema::{CDC_OPERATION_COLUMN, CDC_SEQUENCE_COLUMN};
use crate::text::{
    cat2, cat3, decimal, digit_char, digit_to_char, hex, hex_limit, join, joined,
    law_decimal_reads_back, law_hex_stands_for_its_number,
    law_signed_decimal_stands_for_its_number, positional, signed_decimal, signed_decimal_of,
    signed_number, views,
};

verus! {

/// CDC operation type appended to every row sent via Snowpipe Streaming.
#[derive(Clone, Copy, Debug, PartialEq, Eq, Structural)]
pub enum CdcOperation {
    Insert,
    Update,
    Delete,
}

impl CdcOperation {
    /// The text of the `_cdc_operation` column.
    pub open spec fn text(self) -> Seq<char> {
        match self {
            CdcOperation::Insert => "insert"@,
            CdcOperation::Update => "update"@,
            CdcOperation::Delete => "delete"@,
        }
    }

    /// Returns string written into the `_cdc_operation` column.
    pub fn as_str(self) -> (r: &'static str)
        ensures
            r@ == self.text(),
    {
        match self {
            CdcOperation::Insert => "insert",
            CdcOperation::Update => "update",
            CdcOperation::Delete => "delete",
        }
    }
}

/// CDC metadata attached to every row in a batch.
#[derive(Clone, Copy, Debug)]
pub struct CdcMeta<'a> {
    /// Operation performed.
    pub operation: CdcOperation,
    /// WAL sequence identifier obtained from `OffsetToken`.
    pub sequence: &'a str,
}

impl<'a> CdcMeta<'a> {
    /// Create new CDC meta.
    pub fn new(operation: CdcOperation, sequence: &'a str) -> (r: Self)
        ensures
            r.operation == operation,
            r.sequence@ == sequence@,
    {
        CdcMeta { operation, sequence }
    }
}

/// Whether a text holds no line break.
pub open spec fn on_one_line(s: Seq<char>) -> bool {
    forall|i: int| 0 <= i < s.len() ==> #[trigger] s[i] != '\n'
}

/// A character as it stands in a JSON string: quotation mark, backslash and control characters are
/// escaped, by a short form where there is one.
pub open spec fn json_char(c: char) -> Seq<char> {
    if c == '"' || c == '\\' {
        seq!['\\', c]
    } else if c == '\n' {
        seq!['\\', 'n']
    } else if c == '\r' {
        seq!['\\', 'r']
    } else if c == '\t' {
        seq!['\\', 't']
    } else if c == '\u{8}' {
        seq!['\\', 'b']
    } else if c == '\u{c}' {
        seq!['\\', 'f']
    } else if 32 > c as nat {
        seq!['\\', 'u'] + hex(c as nat, 4)
    } else {
        seq![c]
    }
}

/// The characters of a text as they stand in a JSON string.
pub open spec fn json_chars(s: Seq<char>) -> Seq<char>
    decreases s.len(),
{
    if s.len() == 0 {
        Seq::empty()
    } else {
        json_chars(s.drop_last()) + json_char(s.last())
    }
}

/// A text as a JSON string.
#[verifier::opaque]
pub open spec fn json_text(s: Seq<char>) -> Seq<char> {
    seq!['"'] + json_chars(s) + seq!['"']
}

/// Returns a text as a JSON string, by `serde_json::to_string`, which puts it in quotation marks
/// and escapes quotation marks, backslashes and control characters.
#[verifier::external_body]
fn to_json(s: &str) -> (r: String)
    ensures
        r@ == json_text(s@),
{
    serde_json::to_string(s).unwrap_or_default()
}

proof fn lemma_json_char(c: char)
    ensures
        json_char(c).len() > 0,
        on_one_line(json_char(c)),
        json_char(c)[0] != '\\' ==> json_char(c) == seq![c],
        json_char(c)[0] == '\\' ==> json_char(c).len() == if json_char(c)[1] == 'u' {
            6nat
        } else {
            2nat
        },
{
    reveal_with_fuel(hex, 5);
    if 32 > c as nat {
        let n = c as nat;
        assert(n / 16 == 0 || n / 16 == 1);
        assert((n / 16) / 16 == 0);
        assert(hex(n, 4) =~= seq!['0', '0', digit_char((n / 16) as int), digit_char(
            (n % 16) as int,
        )]);
    }
}

proof fn lemma_json_chars_on_one_line(s: Seq<char>)
    ensures
        on_one_line(json_chars(s)),
    decreases s.len(),
{
    if s.len() > 0 {
        lemma_json_chars_on_one_line(s.drop_last());
        lemma_json_char(s.last());
    }
}

fn json_string(s: &str) -> (r: String)
    ensures
        r@ == json_text(s@),
        on_one_line(r@),
{
    proof {
        reveal(json_text);
        lemma_json_chars_on_one_line(s@);
    }
    to_json(s)
}

proof fn lemma_json_chars_first(s: Seq<char>)
    requires
        s.len() > 0,
    ensures
        json_chars(s) == json_char(s[0]) + json_chars(s.skip(1)),
    decreases s.len(),
{
    if s.len() == 1 {
        assert(s.drop_last() =~= Seq::<char>::empty());
        assert(s.skip(1) =~= Seq::<char>::empty());
        assert(json_chars(s) =~= json_char(s[0]) + json_chars(s.skip(1)));
    } else {
        lemma_json_chars_first(s.drop_last());
        assert(s.drop_last().skip(1) =~= s.skip(1).drop_last());
        assert(json_chars(s) =~= json_char(s[0]) + json_chars(s.skip(1)));
    }
}

proof fn lemma_json_char_is_injective(a: char, b: char)
    requires
        json_char(a) == json_char(b),
    ensures
        a == b,
{
    reveal_with_fuel(hex, 5);
    let (x, y) = (json_char(a), json_char(b));
    lemma_json_char(a);
    lemma_json_char(b);
    if x[0] != '\\' {
        assert(x[0] == a && y[0] == b);
    } else if x[1] == 'u' {
        let (m, n) = (a as nat, b as nat);
        assert(x[5] == digit_char((m % 16) as int));
        assert(y[5] == digit_char((n % 16) as int));
        assert(x[4] == digit_char(((m / 16) % 16) as int));
        assert(y[4] == digit_char(((n / 16) % 16) as int));
        assert(m < 32 && n < 32);
    }
}

proof fn lemma_json_chars_are_injective(a: Seq<char>, b: Seq<char>)
    requires
        json_chars(a) == json_chars(b),
    ensures
        a == b,
    decreases a.len(),
{
    if a.len() == 0 || b.len() == 0 {
        if a.len() > 0 {
            lemma_json_char(a.last());
        }
        if b.len() > 0 {
            lemma_json_char(b.last());
        }
        assert(a =~= b);
    } else {
        let all = json_chars(a);
        let (x, y) = (json_char(a[0]), json_char(b[0]));
        lemma_json_chars_first(a);
        lemma_json_chars_first(b);
        lemma_json_char(a[0]);
        lemma_json_char(b[0]);
        assert(all[0] == x[0] && all[0] == y[0]);
        if x.len() > 1 && y.len() > 1 {
            assert(all[1] == x[1] && all[1] == y[1]);
        }
        assert(x.len() == y.len());
        assert(x =~= all.take(x.len() as int));
        assert(y =~= all.take(x.len() as int));
        lemma_json_char_is_injective(a[0], b[0]);
        assert(json_chars(a.skip(1)) =~= all.skip(x.len() as int));
        assert(json_chars(b.skip(1)) =~= all.skip(x.len() as int));
        lemma_json_chars_are_injective(a.skip(1), b.skip(1));
        assert(a =~= seq![a[0]] + a.skip(1));
        assert(b =~= seq![b[0]] + b.skip(1));
    }
}

/// Different texts stay different as JSON strings.
pub proof fn law_json_text_is_injective(a: Seq<char>, b: Seq<char>)
    requires
        json_text(a) == json_text(b),
    ensures
        a == b,
{
    reveal(json_text);
    assert(json_text(a).subrange(1, json_text(a).len() - 1) =~= json_chars(a));
    assert(json_text(b).subrange(1, json_text(b).len() - 1) =~= json_chars(b));
    lemma_json_chars_are_injective(a, b);
}

/// The JSON text of a value, or why it has none.
pub type JsonModel = Result<Seq<char>, Seq<char>>;

/// Whether a result is the given JSON text or reason.
pub open spec fn encodes(r: Result<String, String>, s: JsonModel) -> bool {
    match (r, s) {
        (Ok(a), Ok(b)) => a@ == b,
        (Err(a), Err(b)) => a@ == b,
        _ => false,
    }
}

/// Whether a result, if it is a text, stands on one line.
pub open spec fn result_on_one_line(r: Result<String, String>) -> bool {
    r matches Ok(s) ==> on_one_line(s@)
}

/// JSON text of a truth value.
pub open spec fn bool_value() -> spec_fn(bool) -> JsonModel {
    |b: bool|
        Ok(
            if b {
                "true"@
            } else {
                "false"@
            },
        )
}

fn bool_json(b: &bool) -> (r: Result<String, String>)
    ensures
        encodes(r, bool_value()(*b)),
        result_on_one_line(r),
{
    proof {
        reveal_strlit("true");
        reveal_strlit("false");
    }
    Ok(
        if *b {
            "true".to_string()
        } else {
            "false".to_string()
        },
    )
}

/// JSON text of a text.
pub open spec fn string_value() -> spec_fn(String) -> JsonModel {
    |s: String| Ok(json_text(s@))
}

fn string_json(s: &String) -> (r: Result<String, String>)
    ensures
        encodes(r, string_value()(*s)),
        result_on_one_line(r),
{
    Ok(json_string(s.as_str()))
}

/// JSON text of a JSON document: its own.
pub open spec fn document_value() -> spec_fn(String) -> JsonModel {
    |s: String| Ok(s@)
}

fn document_json(s: &String) -> (r: Result<String, String>)
    ensures
        encodes(r, document_value()(*s)),
        on_one_line(s@) ==> result_on_one_line(r),
{
    Ok(s.clone())
}

proof fn lemma_digits_on_one_line(n: int)
    ensures
        on_one_line(signed_decimal(n)),
{
    reveal_strlit("-");
    let m = if n < 0 {
        (-n) as nat
    } else {
        n as nat
    };
    law_decimal_reads_back(m, m as int);
    assert forall|i: int| 0 <= i < signed_decimal(n).len() implies #[trigger] signed_decimal(n)[i]
        != '\n' by {
        if n < 0 {
            if i > 0 {
                assert('0' <= decimal(m)[i - 1] <= '9');
            }
        } else {
            assert('0' <= decimal(m)[i] <= '9');
        }
    }
}

fn integer_json(n: i64) -> (r: String)
    ensures
        r@ == signed_decimal(n as int),
        on_one_line(r@),
{
    proof {
        lemma_digits_on_one_line(n as int);
    }
    signed_decimal_of(n)
}

/// JSON text of an integer.
pub open spec fn i16_value() -> spec_fn(i16) -> JsonModel {
    |n: i16| Ok(signed_decimal(n as int))
}

fn i16_json(n: &i16) -> (r: Result<String, String>)
    ensures
        encodes(r, i16_value()(*n)),
        result_on_one_line(r),
{
    Ok(integer_json(*n as i64))
}

/// JSON text of an integer.
pub open spec fn i32_value() -> spec_fn(i32) -> JsonModel {
    |n: i32| Ok(signed_decimal(n as int))
}

fn i32_json(n: &i32) -> (r: Result<String, String>)
    ensures
        encodes(r, i32_value()(*n)),
        result_on_one_line(r),
{
    Ok(integer_json(*n as i64))
}

/// JSON text of an integer.
pub open spec fn u32_value() -> spec_fn(u32) -> JsonModel {
    |n: u32| Ok(signed_decimal(n as int))
}

fn u32_json(n: &u32) -> (r: Result<String, String>)
    ensures
        encodes(r, u32_value()(*n)),
        result_on_one_line(r),
{
    Ok(integer_json(*n as i64))
}

/// JSON text of an integer.
pub open spec fn i64_value() -> spec_fn(i64) -> JsonModel {
    |n: i64| Ok(signed_decimal(n as int))
}

fn i64_json(n: &i64) -> (r: Result<String, String>)
    ensures
        encodes(r, i64_value()(*n)),
        result_on_one_line(r),
{
    Ok(integer_json(*n))
}

/// JSON text of a floating-point value; only finite values have one.
pub open spec fn float_value() -> spec_fn(Float) -> JsonModel {
    |f: Float|
        match f {
            Float::Finite(s) => Ok(s@),
            Float::Nan => Err(
                "Snowflake does not support NaN/Infinity float values: "@ + "NaN"@,
            ),
            Float::Infinity => Err(
                "Snowflake does not support NaN/Infinity float values: "@ + "inf"@,
            ),
            Float::NegInfinity => Err(
                "Snowflake does not support NaN/Infinity float values: "@ + "-inf"@,
            ),
        }
}

/// Whether a finite value's text holds no line break.
pub open spec fn plain_float() -> spec_fn(Float) -> bool {
    |f: Float| f matches Float::Finite(s) ==> on_one_line(s@)
}

fn float_json(f: &Float) -> (r: Result<String, String>)
    ensures
        encodes(r, float_value()(*f)),
        plain_float()(*f) ==> result_on_one_line(r),
{
    let shown = match f {
        Float::Finite(s) => {
            return Ok(s.clone());
        },
        Float::Nan => "NaN",
        Float::Infinity => "inf",
        Float::NegInfinity => "-inf",
    };
    Err(cat2("Snowflake does not support NaN/Infinity float values: ", shown))
}

/// JSON text of a numeric value; only finite values have one.
pub open spec fn numeric_value() -> spec_fn(PgNumeric) -> JsonModel {
    |n: PgNumeric|
        match n {
            PgNumeric::NaN => Err("Snowflake NUMBER does not support NaN"@),
            PgNumeric::PositiveInfinity | PgNumeric::NegativeInfinity => Err(
                "Snowflake NUMBER does not support Infinity"@,
            ),
            PgNumeric::Value(s) => Ok(json_text(s@)),
        }
}

fn numeric_json(n: &PgNumeric) -> (r: Result<String, String>)
    ensures
        encodes(r, numeric_value()(*n)),
        result_on_one_line(r),
{
    match n {
        PgNumeric::NaN => Err("Snowflake NUMBER does not support NaN".to_string()),
        PgNumeric::PositiveInfinity | PgNumeric::NegativeInfinity => Err(
            "Snowflake NUMBER does not support Infinity".to_string(),
        ),
        PgNumeric::Value(s) => Ok(json_string(s.as_str())),
    }
}

/// JSON text of a date.
pub open spec fn date_value() -> spec_fn(Date) -> JsonModel {
    |d: Date| Ok(json_text(d.text()))
}

fn date_json(d: &Date) -> (r: Result<String, String>)
    ensures
        encodes(r, date_value()(*d)),
        result_on_one_line(r),
{
    let s = d.to_text();
    Ok(json_string(s.as_str()))
}

/// JSON text of a time of day.
pub open spec fn time_value() -> spec_fn(Time) -> JsonModel {
    |t: Time| Ok(json_text(t.text()))
}

fn time_json(t: &Time) -> (r: Result<String, String>)
    ensures
        encodes(r, time_value()(*t)),
        result_on_one_line(r),
{
    let s = t.to_text();
    Ok(json_string(s.as_str()))
}

/// JSON text of a timestamp.
pub open spec fn timestamp_value() -> spec_fn(Timestamp) -> JsonModel {
    |t: Timestamp| Ok(json_text(t.text()))
}

fn timestamp_json(t: &Timestamp) -> (r: Result<String, String>)
    ensures
        encodes(r, timestamp_value()(*t)),
        result_on_one_line(r),
{
    let s = t.to_text();
    Ok(json_string(s.as_str()))
}

/// JSON text of an instant.
pub open spec fn instant_value() -> spec_fn(Timestamp) -> JsonModel {
    |t: Timestamp| Ok(json_text(t.utc_text()))
}

fn instant_json(t: &Timestamp) -> (r: Result<String, String>)
    ensures
        encodes(r, instant_value()(*t)),
        result_on_one_line(r),
{
    let s = t.to_utc_text();
    Ok(json_string(s.as_str()))
}

/// JSON text of an identifier.
pub open spec fn uuid_value() -> spec_fn(Uuid) -> JsonModel {
    |u: Uuid| Ok(json_text(crate::cell::uuid_text(u.0 as nat)))
}

fn uuid_json(u: &Uuid) -> (r: Result<String, String>)
    ensures
        encodes(r, uuid_value()(*u)),
        result_on_one_line(r),
{
    let s = u.to_text();
    Ok(json_string(s.as_str()))
}

/// Bytes as pairs of hexadecimal digits.
pub open spec fn hex_bytes(bytes: Seq<u8>) -> Seq<char>
    decreases bytes.len(),
{
    if bytes.len() == 0 {
        Seq::empty()
    } else {
        hex_bytes(bytes.drop_last()) + hex(bytes.last() as nat, 2)
    }
}

/// Returns bytes as pairs of hexadecimal digits.
fn to_hex(bytes: &Vec<u8>) -> (r: String)
    ensures
        r@ == hex_bytes(bytes@),
{
    let mut out = String::new();
    let n: usize = bytes.len();
    let mut i: usize = 0;
    while i < n
        invariant
            i <= n,
            n == bytes@.len(),
            out@ == hex_bytes(bytes@.take(i as int)),
        decreases n - i,
    {
        let b: u8 = bytes[i];
        let ghost before = out@;
        out.push(digit_to_char(b / 16));
        out.push(digit_to_char(b % 16));
        i = i + 1;
        proof {
            reveal_with_fuel(hex, 3);
            let now = bytes@.take(i as int);
            assert(now.drop_last() =~= bytes@.take(i - 1));
            assert(now.last() == b);
            assert((b / 16) % 16 == b / 16);
            assert(out@ =~= before + hex(b as nat, 2));
        }
    }
    proof {
        assert(bytes@.take(n as int) =~= bytes@);
    }
    out
}

/// JSON text of bytes.
pub open spec fn bytes_value() -> spec_fn(Vec<u8>) -> JsonModel {
    |b: Vec<u8>| Ok(json_text(hex_bytes(b@)))
}

fn bytes_json(b: &Vec<u8>) -> (r: Result<String, String>)
    ensures
        encodes(r, bytes_value()(*b)),
        result_on_one_line(r),
{
    let s = to_hex(b);
    Ok(json_string(s.as_str()))
}

/// JSON text of an array element.
pub open spec fn element_value<T>(item: Option<T>, value: spec_fn(T) -> JsonModel) -> JsonModel {
    match item {
        None => Ok("null"@),
        Some(x) => value(x),
    }
}

/// JSON texts of array elements.
pub open spec fn element_values<T>(
    items: Seq<Option<T>>,
    value: spec_fn(T) -> JsonModel,
) -> Seq<JsonModel> {
    Seq::new(items.len(), |i: int| element_value(items[i], value))
}

/// JSON text of an array; the first element without a text decides the reason.
pub open spec fn array_value<T>(items: Seq<Option<T>>, value: spec_fn(T) -> JsonModel) -> JsonModel {
    match collected(element_values(items, value)) {
        Err(e) => Err(e),
        Ok(texts) => Ok("["@ + joined(texts, ","@) + "]"@),
    }
}

/// Whether each element that is there has the property.
pub open spec fn all_plain<T>(items: Seq<Option<T>>, plain: spec_fn(T) -> bool) -> bool {
    forall|i: int|
        0 <= i < items.len() ==> match #[trigger] items[i] {
            Some(x) => plain(x),
            None => true,
        }
}

proof fn lemma_joined_on_one_line(parts: Seq<Seq<char>>, sep: Seq<char>)
    requires
        forall|i: int| 0 <= i < parts.len() ==> on_one_line(#[trigger] parts[i]),
        on_one_line(sep),
    ensures
        on_one_line(joined(parts, sep)),
    decreases parts.len(),
{
    if parts.len() > 1 {
        assert forall|i: int| 0 <= i < parts.drop_last().len() implies on_one_line(
            #[trigger] parts.drop_last()[i],
        ) by {
            assert(parts.drop_last()[i] == parts[i]);
        }
        lemma_joined_on_one_line(parts.drop_last(), sep);
        assert(on_one_line(parts.last()));
    } else if parts.len() == 1 {
        assert(on_one_line(parts[0]));
    }
}

/// Returns the JSON text of an array whose elements `encode` turns into JSON.
fn array_json<T, F: Fn(&T) -> Result<String, String>>(
    items: &Vec<Option<T>>,
    encode: F,
    value: Ghost<spec_fn(T) -> JsonModel>,
    plain: Ghost<spec_fn(T) -> bool>,
) -> (r: Result<String, String>)
    requires
        forall|x: &T| #[trigger] encode.requires((x,)),
        forall|x: &T, s: Result<String, String>| #[trigger]
            encode.ensures((x,), s) ==> encodes(s, (value@)(*x)),
        forall|x: &T, s: Result<String, String>| #[trigger]
            encode.ensures((x,), s) && (plain@)(*x) ==> result_on_one_line(s),
    ensures
        encodes(r, array_value(items@, value@)),
        all_plain(items@, plain@) ==> result_on_one_line(r),
{
    let ghost all = element_values(items@, value@);
    let mut parts: Vec<String> = Vec::new();
    let n: usize = items.len();
    let mut i: usize = 0;
    proof {
        reveal_strlit("null");
        reveal_strlit("[");
        reveal_strlit("]");
        reveal_strlit(",");
        assert(views(parts@) =~= Seq::<Seq<char>>::empty());
    }
    while i < n
        invariant
            i <= n,
            n == items@.len(),
            all == element_values(items@, value@),
            forall|x: &T| #[trigger] encode.requires((x,)),
            forall|x: &T, s: Result<String, String>| #[trigger]
                encode.ensures((x,), s) ==> encodes(s, (value@)(*x)),
            forall|x: &T, s: Result<String, String>| #[trigger]
                encode.ensures((x,), s) && (plain@)(*x) ==> result_on_one_line(s),
            collected(all.take(i as int)) == Ok::<Seq<Seq<char>>, Seq<char>>(views(parts@)),
            all_plain(items@, plain@) ==> forall|j: int|
                0 <= j < parts@.len() ==> on_one_line((#[trigger] parts@[j])@),
            on_one_line("null"@),
        decreases n - i,
    {
        proof {
            assert(all.take(i + 1).drop_last() =~= all.take(i as int));
            assert(all.take(i + 1).last() == all[i as int]);
        }
        let ghost had = parts@;
        match &items[i] {
            None => {
                parts.push("null".to_string());
            },
            Some(x) => match encode(x) {
                Ok(s) => {
                    proof {
                        if all_plain(items@, plain@) {
                            assert(items@[i as int] == Some(*x));
                        }
                    }
                    parts.push(s);
                },
                Err(e) => {
                    proof {
                        lemma_collected_error(all, i + 1);
                    }
                    return Err(e);
                },
            },
        }
        proof {
            assert(views(parts@) =~= views(had).push(parts@.last()@));
        }
        i = i + 1;
    }
    proof {
        assert(all.take(n as int) =~= all);
        if all_plain(items@, plain@) {
            assert forall|j: int| 0 <= j < views(parts@).len() implies on_one_line(
                #[trigger] views(parts@)[j],
            ) by {
                assert(on_one_line(parts@[j]@));
            }
            lemma_joined_on_one_line(views(parts@), ","@);
        }
    }
    let inner = join(parts.as_slice(), ",");
    Ok(cat3("[", inner.as_str(), "]"))
}

/// JSON text of an array value.
pub open spec fn array_cell_value(array: ArrayCell) -> JsonModel {
    match array {
        ArrayCell::Bool(v) => array_value(v@, bool_value()),
        ArrayCell::String(v) => array_value(v@, string_value()),
        ArrayCell::I16(v) => array_value(v@, i16_value()),
        ArrayCell::I32(v) => array_value(v@, i32_value()),
        ArrayCell::U32(v) => array_value(v@, u32_value()),
        ArrayCell::I64(v) => array_value(v@, i64_value()),
        ArrayCell::F32(v) => array_value(v@, float_value()),
        ArrayCell::F64(v) => array_value(v@, float_value()),
        ArrayCell::Numeric(v) => array_value(v@, numeric_value()),
        ArrayCell::Date(v) => array_value(v@, date_value()),
        ArrayCell::Time(v) => array_value(v@, time_value()),
        ArrayCell::Timestamp(v) => array_value(v@, timestamp_value()),
        ArrayCell::TimestampTz(v) => array_value(v@, instant_value()),
        ArrayCell::Uuid(v) => array_value(v@, uuid_value()),
        ArrayCell::Json(v) => array_value(v@, document_value()),
        ArrayCell::Bytes(v) => array_value(v@, bytes_value()),
    }
}

/// Whether a document's text holds no line break.
pub open spec fn plain_document() -> spec_fn(String) -> bool {
    |s: String| on_one_line(s@)
}

/// Whether the texts that are written as they are hold no line break.
pub open spec fn plain_array(array: ArrayCell) -> bool {
    match array {
        ArrayCell::F32(v) => all_plain(v@, plain_float()),
        ArrayCell::F64(v) => all_plain(v@, plain_float()),
        ArrayCell::Json(v) => all_plain(v@, plain_document()),
        _ => true,
    }
}

fn array_cell_json(array: &ArrayCell) -> (r: Result<String, String>)
    ensures
        encodes(r, array_cell_value(*array)),
        plain_array(*array) ==> result_on_one_line(r),
{
    match array {
        ArrayCell::Bool(v) => array_json(v, bool_json, Ghost(bool_value()), Ghost(|x: bool| true)),
        ArrayCell::String(v) => array_json(
            v,
            string_json,
            Ghost(string_value()),
            Ghost(|x: String| true),
        ),
        ArrayCell::I16(v) => array_json(v, i16_json, Ghost(i16_value()), Ghost(|x: i16| true)),
        ArrayCell::I32(v) => array_json(v, i32_json, Ghost(i32_value()), Ghost(|x: i32| true)),
        ArrayCell::U32(v) => array_json(v, u32_json, Ghost(u32_value()), Ghost(|x: u32| true)),
        ArrayCell::I64(v) => array_json(v, i64_json, Ghost(i64_value()), Ghost(|x: i64| true)),
        ArrayCell::F32(v) => array_json(v, float_json, Ghost(float_value()), Ghost(plain_float())),
        ArrayCell::F64(v) => array_json(v, float_json, Ghost(float_value()), Ghost(plain_float())),
        ArrayCell::Numeric(v) => array_json(
            v,
            numeric_json,
            Ghost(numeric_value()),
            Ghost(|x: PgNumeric| true),
        ),
        ArrayCell::Date(v) => array_json(v, date_json, Ghost(date_value()), Ghost(|x: Date| true)),
        ArrayCell::Time(v) => array_json(v, time_json, Ghost(time_value()), Ghost(|x: Time| true)),
        ArrayCell::Timestamp(v) => array_json(
            v,
            timestamp_json,
            Ghost(timestamp_value()),
            Ghost(|x: Timestamp| true),
        ),
        ArrayCell::TimestampTz(v) => array_json(
            v,
            instant_json,
            Ghost(instant_value()),
            Ghost(|x: Timestamp| true),
        ),
        ArrayCell::Uuid(v) => array_json(v, uuid_json, Ghost(uuid_value()), Ghost(|x: Uuid| true)),
        ArrayCell::Json(v) => array_json(
            v,
            document_json,
            Ghost(document_value()),
            Ghost(plain_document()),
        ),
        ArrayCell::Bytes(v) => array_json(
            v,
            bytes_json,
            Ghost(bytes_value()),
            Ghost(|x: Vec<u8>| true),
        ),
    }
}

/// JSON text of a cell.
pub open spec fn cell_value(cell: Cell) -> JsonModel {
    match cell {
        Cell::Null => Ok("null"@),
        Cell::Bool(b) => bool_value()(b),
        Cell::String(s) => string_value()(s),
        Cell::I16(n) => i16_value()(n),
        Cell::I32(n) => i32_value()(n),
        Cell::U32(n) => u32_value()(n),
        Cell::I64(n) => i64_value()(n),
        Cell::F32(f) => float_value()(f),
        Cell::F64(f) => float_value()(f),
        Cell::Numeric(n) => numeric_value()(n),
        Cell::Date(d) => date_value()(d),
        Cell::Time(t) => time_value()(t),
        Cell::Timestamp(t) => timestamp_value()(t),
        Cell::TimestampTz(t) => instant_value()(t),
        Cell::Uuid(u) => uuid_value()(u),
        Cell::Json(s) => document_value()(s),
        Cell::Bytes(b) => bytes_value()(b),
        Cell::Array(array) => array_cell_value(array),
    }
}

/// Whether the texts that are written as they are hold no line break.
pub open spec fn plain_cell(cell: Cell) -> bool {
    match cell {
        Cell::F32(f) => plain_float()(f),
        Cell::F64(f) => plain_float()(f),
        Cell::Json(s) => plain_document()(s),
        Cell::Array(array) => plain_array(array),
        _ => true,
    }
}

/// Returns the JSON text of a cell.
pub fn cell_json(cell: &Cell) -> (r: Result<String, String>)
    ensures
        encodes(r, cell_value(*cell)),
        plain_cell(*cell) ==> result_on_one_line(r),
{
    match cell {
        Cell::Null => {
            proof {
                reveal_strlit("null");
            }
            Ok("null".to_string())
        },
        Cell::Bool(b) => bool_json(b),
        Cell::String(s) => string_json(s),
        Cell::I16(n) => i16_json(n),
        Cell::I32(n) => i32_json(n),
        Cell::U32(n) => u32_json(n),
        Cell::I64(n) => i64_json(n),
        Cell::F32(f) => float_json(f),
        Cell::F64(f) => float_json(f),
        Cell::Numeric(n) => numeric_json(n),
        Cell::Date(d) => date_json(d),
        Cell::Time(t) => time_json(t),
        Cell::Timestamp(t) => timestamp_json(t),
        Cell::TimestampTz(t) => instant_json(t),
        Cell::Uuid(u) => uuid_json(u),
        Cell::Json(s) => document_json(s),
        Cell::Bytes(b) => bytes_json(b),
        Cell::Array(array) => array_cell_json(array),
    }
}

/// Number of columns that a row fills.
pub open spec fn filled(cols: Seq<ColumnSchema>, cells: Seq<Cell>) -> nat {
    if cols.len() <= cells.len() {
        cols.len()
    } else {
        cells.len()
    }
}

/// A member of a JSON object.
pub open spec fn member(name: Seq<char>, value: JsonModel) -> JsonModel {
    match value {
        Ok(v) => Ok(json_text(name) + ":"@ + v),
        Err(e) => Err(e),
    }
}

/// The members that the source columns give.
pub open spec fn column_members(cols: Seq<ColumnSchema>, cells: Seq<Cell>) -> Seq<JsonModel> {
    Seq::new(filled(cols, cells), |i: int| member(cols[i].name@, cell_value(cells[i])))
}

/// A row as a JSON object: the source columns, then operation and position. The first cell without
/// a JSON text decides the reason.
pub open spec fn row_object(
    cols: Seq<ColumnSchema>,
    cells: Seq<Cell>,
    operation: CdcOperation,
    sequence: Seq<char>,
) -> JsonModel {
    match collected(column_members(cols, cells)) {
        Err(e) => Err(e),
        Ok(members) => Ok(
            "{"@ + joined(
                members.push(
                    json_text(CDC_OPERATION_COLUMN@) + ":"@ + json_text(operation.text()),
                ).push(json_text(CDC_SEQUENCE_COLUMN@) + ":"@ + json_text(sequence)),
                ","@,
            ) + "}"@,
        ),
    }
}

/// A row's line: the object and a line break.
pub open spec fn row_line(
    cols: Seq<ColumnSchema>,
    cells: Seq<Cell>,
    operation: CdcOperation,
    sequence: Seq<char>,
) -> JsonModel {
    match row_object(cols, cells, operation, sequence) {
        Err(e) => Err(e),
        Ok(object) => Ok(object + "\n"@),
    }
}

/// Whether the texts of a row that are written as they are hold no line break.
pub open spec fn plain_row(cells: Seq<Cell>) -> bool {
    forall|i: int| 0 <= i < cells.len() ==> plain_cell(#[trigger] cells[i])
}

/// Returns a row as a JSON object.
pub fn row_json(cols: &[ColumnSchema], row: &TableRow, cdc: CdcMeta<'_>) -> (r: Result<
    String,
    String,
>)
    ensures
        encodes(r, row_object(cols@, row.values@, cdc.operation, cdc.sequence@)),
        plain_row(row.values@) ==> result_on_one_line(r),
{
    let cells = row.values();
    let n: usize = if cols.len() <= cells.len() {
        cols.len()
    } else {
        cells.len()
    };
    let ghost all = column_members(cols@, cells@);
    let mut parts: Vec<String> = Vec::new();
    let mut i: usize = 0;
    proof {
        reveal_strlit("{");
        reveal_strlit("}");
        reveal_strlit(",");
        reveal_strlit(":");
        assert(views(parts@) =~= Seq::<Seq<char>>::empty());
    }
    while i < n
        invariant
            i <= n,
            n == filled(cols@, cells@),
            cells@ == row.values@,
            all == column_members(cols@, cells@),
            collected(all.take(i as int)) == Ok::<Seq<Seq<char>>, Seq<char>>(views(parts@)),
            plain_row(cells@) ==> forall|j: int|
                0 <= j < parts@.len() ==> on_one_line((#[trigger] parts@[j])@),
            on_one_line(":"@),
        decreases n - i,
    {
        proof {
            assert(all.take(i + 1).drop_last() =~= all.take(i as int));
            assert(all.take(i + 1).last() == all[i as int]);
        }
        let ghost had = parts@;
        let name = json_string(cols[i].name.as_str());
        match cell_json(&cells[i]) {
            Ok(value) => {
                parts.push(cat3(name.as_str(), ":", value.as_str()));
            },
            Err(e) => {
                proof {
                    lemma_collected_error(all, i + 1);
                }
                return Err(e);
            },
        }
        proof {
            assert(views(parts@) =~= views(had).push(parts@.last()@));
        }
        i = i + 1;
    }
    let ghost members = views(parts@);
    let operation_name = json_string(CDC_OPERATION_COLUMN);
    let operation = json_string(cdc.operation.as_str());
    parts.push(cat3(operation_name.as_str(), ":", operation.as_str()));
    let sequence_name = json_string(CDC_SEQUENCE_COLUMN);
    let sequence = json_string(cdc.sequence);
    parts.push(cat3(sequence_name.as_str(), ":", sequence.as_str()));
    proof {
        assert(all.take(n as int) =~= all);
        assert(views(parts@) =~= members.push(
            json_text(CDC_OPERATION_COLUMN@) + ":"@ + json_text(cdc.operation.text()),
        ).push(json_text(CDC_SEQUENCE_COLUMN@) + ":"@ + json_text(cdc.sequence@)));
        if plain_row(row.values@) {
            assert forall|j: int| 0 <= j < views(parts@).len() implies on_one_line(
                #[trigger] views(parts@)[j],
            ) by {
                assert(on_one_line(parts@[j]@));
            }
            lemma_joined_on_one_line(views(parts@), ","@);
        }
    }
    let inner = join(parts.as_slice(), ",");
    Ok(cat3("{", inner.as_str(), "}"))
}

/// Serialize a single row as an NDJSON line at the end of a buffer.
pub fn serialize_row(
    writer: &mut Vec<u8>,
    cols: &[ColumnSchema],
    row: &TableRow,
    cdc: CdcMeta<'_>,
) -> (r: SnowflakeResult<()>)
    ensures
        match row_line(cols@, row.values@, cdc.operation, cdc.sequence@) {
            Ok(line) => r is Ok && final(writer)@ == old(writer)@ + encode_utf8(line),
            Err(e) => r matches Err(Error::Encoding(f)) && f@ == e && final(writer)@
                == old(writer)@,
        },
        r is Ok && plain_row(row.values@) ==> on_one_line(
            row_object(cols@, row.values@, cdc.operation, cdc.sequence@)->Ok_0,
        ),
{
    match row_json(cols, row, cdc) {
        Ok(object) => {
            let line = cat2(object.as_str(), "\n");
            let bytes = line.as_str().as_bytes();
            writer.extend_from_slice(bytes);
            proof {
                assert(writer@ =~= old(writer)@ + encode_utf8(line@));
            }
            Ok(())
        },
        Err(e) => Err(Error::Encoding(e)),
    }
}

/// The text of an integer cell reads back as the integer, whatever its width and sign.
pub proof fn law_integer_cells_read_back()
    ensures
        forall|n: i16|
            (#[trigger] cell_value(Cell::I16(n))) matches Ok(text) && signed_number(text) == n,
        forall|n: i32|
            (#[trigger] cell_value(Cell::I32(n))) matches Ok(text) && signed_number(text) == n,
        forall|n: u32|
            (#[trigger] cell_value(Cell::U32(n))) matches Ok(text) && signed_number(text) == n,
        forall|n: i64|
            (#[trigger] cell_value(Cell::I64(n))) matches Ok(text) && signed_number(text) == n,
{
    assert forall|n: i16|
        (#[trigger] cell_value(Cell::I16(n))) matches Ok(text) && signed_number(text) == n by {
        law_signed_decimal_stands_for_its_number(n as int);
    }
    assert forall|n: i32|
        (#[trigger] cell_value(Cell::I32(n))) matches Ok(text) && signed_number(text) == n by {
        law_signed_decimal_stands_for_its_number(n as int);
    }
    assert forall|n: u32|
        (#[trigger] cell_value(Cell::U32(n))) matches Ok(text) && signed_number(text) == n by {
        law_signed_decimal_stands_for_its_number(n as int);
    }
    assert forall|n: i64|
        (#[trigger] cell_value(Cell::I64(n))) matches Ok(text) && signed_number(text) == n by {
        law_signed_decimal_stands_for_its_number(n as int);
    }
}

/// Two different integers of one type never have the same text.
pub proof fn law_integer_cells_have_different_texts()
    ensures
        forall|a: i16, b: i16|
            a != b ==> #[trigger] cell_value(Cell::I16(a)) != #[trigger] cell_value(Cell::I16(b)),
        forall|a: i32, b: i32|
            a != b ==> #[trigger] cell_value(Cell::I32(a)) != #[trigger] cell_value(Cell::I32(b)),
        forall|a: u32, b: u32|
            a != b ==> #[trigger] cell_value(Cell::U32(a)) != #[trigger] cell_value(Cell::U32(b)),
        forall|a: i64, b: i64|
            a != b ==> #[trigger] cell_value(Cell::I64(a)) != #[trigger] cell_value(Cell::I64(b)),
{
    law_integer_cells_read_back();
}

/// An element of an integer array has the text of the integer cell, and reads back.
pub proof fn law_integer_elements_read_back()
    ensures
        forall|n: i16|
            (#[trigger] i16_value()(n)) matches Ok(text) && signed_number(text) == n,
        forall|n: i32|
            (#[trigger] i32_value()(n)) matches Ok(text) && signed_number(text) == n,
        forall|n: u32|
            (#[trigger] u32_value()(n)) matches Ok(text) && signed_number(text) == n,
        forall|n: i64|
            (#[trigger] i64_value()(n)) matches Ok(text) && signed_number(text) == n,
{
    assert forall|n: i16| (#[trigger] i16_value()(n)) matches Ok(text) && signed_number(text)
        == n by {
        law_signed_decimal_stands_for_its_number(n as int);
    }
    assert forall|n: i32| (#[trigger] i32_value()(n)) matches Ok(text) && signed_number(text)
        == n by {
        law_signed_decimal_stands_for_its_number(n as int);
    }
    assert forall|n: u32| (#[trigger] u32_value()(n)) matches Ok(text) && signed_number(text)
        == n by {
        law_signed_decimal_stands_for_its_number(n as int);
    }
    assert forall|n: i64| (#[trigger] i64_value()(n)) matches Ok(text) && signed_number(text)
        == n by {
        law_signed_decimal_stands_for_its_number(n as int);
    }
}

/// NULL and the two truth values have the JSON words; a text, a numeric, a date, a time, a timestamp,
/// an instant and an identifier are JSON strings of their texts; a document is its own text.
pub proof fn law_scalar_cells_have_these_texts()
    ensures
        cell_value(Cell::Null) == Ok::<Seq<char>, Seq<char>>("null"@),
        cell_value(Cell::Bool(true)) == Ok::<Seq<char>, Seq<char>>("true"@),
        cell_value(Cell::Bool(false)) == Ok::<Seq<char>, Seq<char>>("false"@),
        forall|s: String|
            #[trigger] cell_value(Cell::String(s)) == Ok::<Seq<char>, Seq<char>>(json_text(s@)),
        forall|s: String|
            #[trigger] cell_value(Cell::Numeric(PgNumeric::Value(s))) == Ok::<Seq<char>, Seq<char>>(
                json_text(s@),
            ),
        forall|d: Date|
            #[trigger] cell_value(Cell::Date(d)) == Ok::<Seq<char>, Seq<char>>(
                json_text(date_text(d.ymd())),
            ),
        forall|t: Time|
            #[trigger] cell_value(Cell::Time(t)) == Ok::<Seq<char>, Seq<char>>(
                json_text(time_text(t.hmsn())),
            ),
        forall|t: Timestamp|
            #[trigger] cell_value(Cell::Timestamp(t)) == Ok::<Seq<char>, Seq<char>>(
                json_text(date_text(t.date.ymd()) + " "@ + time_text(t.time.hmsn())),
            ),
        forall|t: Timestamp|
            #[trigger] cell_value(Cell::TimestampTz(t)) == Ok::<Seq<char>, Seq<char>>(
                json_text(date_text(t.date.ymd()) + " "@ + time_text(t.time.hmsn()) + "+00:00"@),
            ),
        forall|u: Uuid|
            #[trigger] cell_value(Cell::Uuid(u)) == Ok::<Seq<char>, Seq<char>>(
                json_text(uuid_text(u.0 as nat)),
            ),
        forall|s: String|
            #[trigger] cell_value(Cell::Json(s)) == Ok::<Seq<char>, Seq<char>>(s@),
        forall|s: String|
            #[trigger] cell_value(Cell::F32(Float::Finite(s))) == Ok::<Seq<char>, Seq<char>>(s@),
        forall|s: String|
            #[trigger] cell_value(Cell::F64(Float::Finite(s))) == Ok::<Seq<char>, Seq<char>>(s@),
{
}

/// Numbers that are not finite have no text; every other scalar has one.
pub proof fn law_only_finite_numbers_have_texts(cell: Cell)
    ensures
        cell matches Cell::F32(f) ==> (cell_value(cell) is Err <==> !(f is Finite)),
        cell matches Cell::F64(f) ==> (cell_value(cell) is Err <==> !(f is Finite)),
        cell matches Cell::Numeric(n) ==> (cell_value(cell) is Err <==> !(n is Value)),
        !(cell is F32) && !(cell is F64) && !(cell is Numeric) && !(cell is Array) ==> cell_value(
            cell,
        ) is Ok,
        cell_value(Cell::Numeric(PgNumeric::NaN)) == Err::<Seq<char>, Seq<char>>(
            "Snowflake NUMBER does not support NaN"@,
        ),
        cell_value(Cell::Numeric(PgNumeric::PositiveInfinity)) == Err::<Seq<char>, Seq<char>>(
            "Snowflake NUMBER does not support Infinity"@,
        ),
        cell_value(Cell::Numeric(PgNumeric::NegativeInfinity)) == Err::<Seq<char>, Seq<char>>(
            "Snowflake NUMBER does not support Infinity"@,
        ),
{
}

/// Bytes are written as two hexadecimal digits each, in order, that stand for the byte.
pub proof fn law_bytes_read_back(bytes: Seq<u8>)
    ensures
        hex_bytes(bytes).len() == 2 * bytes.len(),
        forall|i: int|
            0 <= i < bytes.len() ==> #[trigger] bytes[i] == positional(
                hex_bytes(bytes).subrange(2 * i, 2 * i + 2),
                16,
            ),
        forall|b: Vec<u8>|
            #[trigger] cell_value(Cell::Bytes(b)) == Ok::<Seq<char>, Seq<char>>(
                json_text(hex_bytes(b@)),
            ),
    decreases bytes.len(),
{
    if bytes.len() > 0 {
        let rest = bytes.drop_last();
        law_bytes_read_back(rest);
        reveal_with_fuel(hex_limit, 3);
        law_hex_stands_for_its_number(bytes.last() as nat, 2);
        let s = hex_bytes(bytes);
        let front = hex_bytes(rest);
        assert forall|i: int| 0 <= i < bytes.len() implies #[trigger] bytes[i] == positional(
            s.subrange(2 * i, 2 * i + 2),
            16,
        ) by {
            if i < rest.len() {
                assert(rest[i] == bytes[i]);
                assert(s.subrange(2 * i, 2 * i + 2) =~= front.subrange(2 * i, 2 * i + 2));
            } else {
                assert(s.subrange(2 * i, 2 * i + 2) =~= hex(bytes.last() as nat, 2));
            }
        }
    }
}

/// An array is its elements' texts in order, between brackets and with commas between them; a NULL
/// element is the word null. It has a text if and only if every element has one.
pub proof fn law_arrays_hold_their_elements<T>(items: Seq<Option<T>>, value: spec_fn(T) -> JsonModel)
    ensures
        array_value(items, value) is Ok <==> forall|i: int|
            0 <= i < items.len() ==> ((#[trigger] items[i]) matches Some(x) ==> value(x) is Ok),
        array_value(items, value) is Ok ==> exists|texts: Seq<Seq<char>>|
            array_value(items, value)->Ok_0 == "["@ + #[trigger] joined(texts, ","@) + "]"@
                && texts.len() == items.len() && forall|i: int|
                0 <= i < items.len() ==> match #[trigger] items[i] {
                    Some(x) => value(x) == Ok::<Seq<char>, Seq<char>>(texts[i]),
                    None => texts[i] == "null"@,
                },
{
    let results = element_values(items, value);
    law_first_error_decides(results);
    match collected(results) {
        Ok(texts) => {
            assert forall|i: int| 0 <= i < items.len() implies match #[trigger] items[i] {
                Some(x) => value(x) == Ok::<Seq<char>, Seq<char>>(texts[i]),
                None => texts[i] == "null"@,
            } by {
                assert(results[i] == Ok::<Seq<char>, Seq<char>>(texts[i]));
            }
            assert(array_value(items, value)->Ok_0 == "["@ + joined(texts, ","@) + "]"@);
        },
        Err(e) => {
            let i = choose|i: int|
                0 <= i < results.len() && #[trigger] results[i] == Err::<Seq<char>, Seq<char>>(e);
            assert(results[i] == element_value(items[i], value));
            assert(items[i] matches Some(x) && value(x) is Err);
        },
    }
}

/// The elements of an array are written as cells of their type are.
pub proof fn law_elements_are_written_as_cells()
    ensures
        forall|v: Vec<Option<bool>>|
            #[trigger] cell_value(Cell::Array(ArrayCell::Bool(v))) == array_value(
                v@,
                |b: bool| cell_value(Cell::Bool(b)),
            ),
        forall|v: Vec<Option<String>>|
            #[trigger] cell_value(Cell::Array(ArrayCell::String(v))) == array_value(
                v@,
                |b: String| cell_value(Cell::String(b)),
            ),
        forall|v: Vec<Option<i16>>|
            #[trigger] cell_value(Cell::Array(ArrayCell::I16(v))) == array_value(
                v@,
                |b: i16| cell_value(Cell::I16(b)),
            ),
        forall|v: Vec<Option<i32>>|
            #[trigger] cell_value(Cell::Array(ArrayCell::I32(v))) == array_value(
                v@,
                |b: i32| cell_value(Cell::I32(b)),
            ),
        forall|v: Vec<Option<u32>>|
            #[trigger] cell_value(Cell::Array(ArrayCell::U32(v))) == array_value(
                v@,
                |b: u32| cell_value(Cell::U32(b)),
            ),
        forall|v: Vec<Option<i64>>|
            #[trigger] cell_value(Cell::Array(ArrayCell::I64(v))) == array_value(
                v@,
                |b: i64| cell_value(Cell::I64(b)),
            ),
        forall|v: Vec<Option<Float>>|
            #[trigger] cell_value(Cell::Array(ArrayCell::F32(v))) == array_value(
                v@,
                |b: Float| cell_value(Cell::F32(b)),
            ),
        forall|v: Vec<Option<Float>>|
            #[trigger] cell_value(Cell::Array(ArrayCell::F64(v))) == array_value(
                v@,
                |b: Float| cell_value(Cell::F64(b)),
            ),
        forall|v: Vec<Option<PgNumeric>>|
            #[trigger] cell_value(Cell::Array(ArrayCell::Numeric(v))) == array_value(
                v@,
                |b: PgNumeric| cell_value(Cell::Numeric(b)),
            ),
        forall|v: Vec<Option<Date>>|
            #[trigger] cell_value(Cell::Array(ArrayCell::Date(v))) == array_value(
                v@,
                |b: Date| cell_value(Cell::Date(b)),
            ),
        forall|v: Vec<Option<Time>>|
            #[trigger] cell_value(Cell::Array(ArrayCell::Time(v))) == array_value(
                v@,
                |b: Time| cell_value(Cell::Time(b)),
            ),
        forall|v: Vec<Option<Timestamp>>|
            #[trigger] cell_value(Cell::Array(ArrayCell::Timestamp(v))) == array_value(
                v@,
                |b: Timestamp| cell_value(Cell::Timestamp(b)),
            ),
        forall|v: Vec<Option<Timestamp>>|
            #[trigger] cell_value(Cell::Array(ArrayCell::TimestampTz(v))) == array_value(
                v@,
                |b: Timestamp| cell_value(Cell::TimestampTz(b)),
            ),
        forall|v: Vec<Option<Uuid>>|
            #[trigger] cell_value(Cell::Array(ArrayCell::Uuid(v))) == array_value(
                v@,
                |b: Uuid| cell_value(Cell::Uuid(b)),
            ),
        forall|v: Vec<Option<String>>|
            #[trigger] cell_value(Cell::Array(ArrayCell::Json(v))) == array_value(
                v@,
                |b: String| cell_value(Cell::Json(b)),
            ),
        forall|v: Vec<Option<Vec<u8>>>|
            #[trigger] cell_value(Cell::Array(ArrayCell::Bytes(v))) == array_value(
                v@,
                |b: Vec<u8>| cell_value(Cell::Bytes(b)),
            ),
{
    assert((|b: bool| cell_value(Cell::Bool(b))) =~= bool_value());
    assert((|b: String| cell_value(Cell::String(b))) =~= string_value());
    assert((|b: i16| cell_value(Cell::I16(b))) =~= i16_value());
    assert((|b: i32| cell_value(Cell::I32(b))) =~= i32_value());
    assert((|b: u32| cell_value(Cell::U32(b))) =~= u32_value());
    assert((|b: i64| cell_value(Cell::I64(b))) =~= i64_value());
    assert((|b: Float| cell_value(Cell::F32(b))) =~= float_value());
    assert((|b: Float| cell_value(Cell::F64(b))) =~= float_value());
    assert((|b: PgNumeric| cell_value(Cell::Numeric(b))) =~= numeric_value());
    assert((|b: Date| cell_value(Cell::Date(b))) =~= date_value());
    assert((|b: Time| cell_value(Cell::Time(b))) =~= time_value());
    assert((|b: Timestamp| cell_value(Cell::Timestamp(b))) =~= timestamp_value());
    assert((|b: Timestamp| cell_value(Cell::TimestampTz(b))) =~= instant_value());
    assert((|b: Uuid| cell_value(Cell::Uuid(b))) =~= uuid_value());
    assert((|b: String| cell_value(Cell::Json(b))) =~= document_value());
    assert((|b: Vec<u8>| cell_value(Cell::Bytes(b))) =~= bytes_value());
}

/// A row is an object whose members are the source columns in order, each with its cell's text, then
/// the operation and the position. It has a text if and only if every cell has one.
pub proof fn law_rows_hold_their_columns(
    cols: Seq<ColumnSchema>,
    cells: Seq<Cell>,
    operation: CdcOperation,
    sequence: Seq<char>,
)
    requires
        cols.len() == cells.len(),
    ensures
        row_object(cols, cells, operation, sequence) is Ok <==> forall|i: int|
            0 <= i < cells.len() ==> cell_value(#[trigger] cells[i]) is Ok,
        row_object(cols, cells, operation, sequence) is Ok ==> exists|members: Seq<Seq<char>>|
            row_object(cols, cells, operation, sequence)->Ok_0 == "{"@ + #[trigger] joined(
                members,
                ","@,
            ) + "}"@ && members.len() == cells.len() + 2 && (forall|i: int|
                0 <= i < cells.len() ==> #[trigger] members[i] == json_text(cols[i].name@) + ":"@
                    + cell_value(cells[i])->Ok_0) && members[cells.len() as int] == json_text(
                "_cdc_operation"@,
            ) + ":"@ + json_text(operation.text()) && members[cells.len() as int + 1] == json_text(
                "_cdc_sequence_number"@,
            ) + ":"@ + json_text(sequence),
        row_object(cols, cells, operation, sequence) matches Ok(object) ==> row_line(
            cols,
            cells,
            operation,
            sequence,
        ) == Ok::<Seq<char>, Seq<char>>(object + "\n"@),
        row_object(cols, cells, operation, sequence) matches Err(e) ==> row_line(
            cols,
            cells,
            operation,
            sequence,
        ) == Err::<Seq<char>, Seq<char>>(e),
{
    let results = column_members(cols, cells);
    law_first_error_decides(results);
    match collected(results) {
        Ok(texts) => {
            let members = texts.push(
                json_text("_cdc_operation"@) + ":"@ + json_text(operation.text()),
            ).push(json_text("_cdc_sequence_number"@) + ":"@ + json_text(sequence));
            assert forall|i: int| 0 <= i < cells.len() implies cell_value(
                #[trigger] cells[i],
            ) is Ok && members[i] == json_text(cols[i].name@) + ":"@ + cell_value(
                cells[i],
            )->Ok_0 by {
                assert(results[i] == Ok::<Seq<char>, Seq<char>>(texts[i]));
            }
            assert(row_object(cols, cells, operation, sequence)->Ok_0 == "{"@ + joined(
                members,
                ","@,
            ) + "}"@);
        },
        Err(e) => {
            let i = choose|i: int|
                0 <= i < results.len() && #[trigger] results[i] == Err::<Seq<char>, Seq<char>>(e);
            assert(results[i] == member(cols[i].name@, cell_value(cells[i])));
            assert(cell_value(cells[i]) is Err);
        },
    }
}

/// The three operations are written with these words, which differ.
pub proof fn law_operations_have_these_names()
    ensures
        CdcOperation::Insert.text() == "insert"@,
        CdcOperation::Update.text() == "update"@,
        CdcOperation::Delete.text() == "delete"@,
        CdcOperation::Insert.text() != CdcOperation::Update.text(),
        CdcOperation::Insert.text() != CdcOperation::Delete.text(),
        CdcOperation::Update.text() != CdcOperation::Delete.text(),
{
    reveal_strlit("insert");
    reveal_strlit("update");
    reveal_strlit("delete");
    assert("insert"@[0] == 'i');
    assert("update"@[0] == 'u');
    assert("delete"@[0] == 'd');
}

/// A returned text is the one that was meant, and so is a returned reason.
pub proof fn law_returned_texts_are_meant(r: Result<String, String>, text: Seq<char>)
    ensures
        encodes(r, Ok(text)) <==> r is Ok && r->Ok_0@ == text,
        encodes(r, Err(text)) <==> r is Err && r->Err_0@ == text,
{
}

/// Whatever text is returned for an integer cell, it reads back as the integer.
pub proof fn law_returned_integers_read_back(
    a: i16,
    b: i32,
    c: u32,
    d: i64,
    x: Result<String, String>,
    y: Result<String, String>,
    z: Result<String, String>,
    w: Result<String, String>,
)
    requires
        call_ensures(cell_json, (&Cell::I16(a),), x),
        call_ensures(cell_json, (&Cell::I32(b),), y),
        call_ensures(cell_json, (&Cell::U32(c),), z),
        call_ensures(cell_json, (&Cell::I64(d),), w),
    ensures
        x matches Ok(text) && signed_number(text@) == a,
        y matches Ok(text) && signed_number(text@) == b,
        z matches Ok(text) && signed_number(text@) == c,
        w matches Ok(text) && signed_number(text@) == d,
{
    law_signed_decimal_stands_for_its_number(a as int);
    law_signed_decimal_stands_for_its_number(b as int);
    law_signed_decimal_stands_for_its_number(c as int);
    law_signed_decimal_stands_for_its_number(d as int);
}

/// A text stands between quotation marks; its quotation marks, backslashes and control characters are
/// escaped, and all other characters stand for themselves.
pub proof fn law_texts_are_escaped(s: Seq<char>, c: char)
    ensures
        json_text(s).len() >= 2,
        json_text(s).first() == '"',
        json_text(s).last() == '"',
        json_text(Seq::empty()) == seq!['"', '"'],
        c == '"' || c == '\\' ==> json_text(s.push(c)) == json_text(s).drop_last() + seq![
            '\\',
            c,
            '"',
        ],
        c == '\n' ==> json_text(s.push(c)) == json_text(s).drop_last() + seq!['\\', 'n', '"'],
        c == '\r' ==> json_text(s.push(c)) == json_text(s).drop_last() + seq!['\\', 'r', '"'],
        c == '\t' ==> json_text(s.push(c)) == json_text(s).drop_last() + seq!['\\', 't', '"'],
        c == '\u{8}' ==> json_text(s.push(c)) == json_text(s).drop_last() + seq!['\\', 'b', '"'],
        c == '\u{c}' ==> json_text(s.push(c)) == json_text(s).drop_last() + seq!['\\', 'f', '"'],
        c as int >= 32 && c != '"' && c != '\\' ==> json_text(s.push(c)) == json_text(
            s,
        ).drop_last() + seq![c, '"'],
        (c as int) < 32 && c != '\n' && c != '\r' && c != '\t' && c != '\u{8}' && c != '\u{c}'
            ==> json_text(s.push(c)) == json_text(s).drop_last() + seq!['\\', 'u'] + hex(
            c as nat,
            4,
        ) + seq!['"'],
{
    reveal(json_text);
    assert(s.push(c).drop_last() =~= s);
    assert(s.push(c).last() == c);
    assert(json_chars(Seq::<char>::empty()) =~= Seq::<char>::empty());
    assert(json_chars(s.push(c)) == json_chars(s) + json_char(c));
    assert(json_text(s).drop_last() =~= seq!['"'] + json_chars(s));
}

/// Only documents and numbers, which are written as they are, can break a line: every other cell is
/// plain, and so is a row without them.
pub proof fn law_other_cells_stay_on_one_line(cell: Cell, row: Seq<Cell>)
    ensures
        !(cell is Json) && !(cell is F32) && !(cell is F64) && !(cell is Array) ==> plain_cell(cell),
        cell matches Cell::Array(a) ==> (!(a is Json) && !(a is F32) && !(a is F64) ==> plain_cell(
            cell,
        )),
        cell matches Cell::Json(s) ==> (plain_cell(cell) <==> forall|i: int|
            0 <= i < s@.len() ==> #[trigger] s@[i] != '\n'),
        cell matches Cell::F64(f) ==> (!(f is Finite) ==> plain_cell(cell)),
        plain_row(row) <==> forall|i: int| 0 <= i < row.len() ==> plain_cell(#[trigger] row[i]),
{
}

/// Whatever text is returned for a plain cell, it holds no line break.
pub proof fn law_returned_texts_stay_on_one_line(cell: &Cell, r: Result<String, String>)
    requires
        call_ensures(cell_json, (cell,), r),
        plain_cell(*cell),
    ensures
        r matches Ok(text) ==> forall|i: int|
            0 <= i < text@.len() ==> #[trigger] text@[i] != '\n',
{
}

} // verus!
