//! Text building and parsing over `Seq<char>` models.
use vstd::prelude::*;

verus! {

/// [`String::push`] appends the given character to the end of the string.
pub assume_specification[ std::string::String::push ](s: &mut std::string::String, c: char)
    ensures
        final(s)@ == old(s)@.push(c),
;

/// Returns the characters of `s` in order.
pub fn chars_of(s: &str) -> (r: Vec<char>)
    ensures
        r@ == s@,
{
    let mut out: Vec<char> = Vec::new();
    for c in it: s.chars()
        invariant
            it.seq() == s@,
            out@ == s@.take(it.index()),
    {
        out.push(c);
        proof {
            assert(out@ =~= s@.take(it.index() + 1));
        }
    }
    proof {
        assert(s@.take(s@.len() as int) =~= s@);
    }
    out
}

/// Builds a string from `chars[from..to]`.
pub fn string_of(chars: &[char], from: usize, to: usize) -> (r: String)
    requires
        from <= to <= chars@.len(),
    ensures
        r@ == chars@.subrange(from as int, to as int),
{
    let mut out = String::new();
    let mut i: usize = from;
    while i < to
        invariant
            from <= i <= to <= chars@.len(),
            out@ == chars@.subrange(from as int, i as int),
        decreases to - i,
    {
        out.push(chars[i]);
        i = i + 1;
        proof {
            assert(out@ =~= chars@.subrange(from as int, i as int));
        }
    }
    out
}

/// Compares two string slices by content.
pub fn str_eq(a: &str, b: &str) -> (r: bool)
    ensures
        r == (a@ == b@),
{
    a.to_owned() == b.to_owned()
}

/// Concatenates two pieces.
pub fn cat2(a: &str, b: &str) -> (r: String)
    ensures
        r@ == a@ + b@,
{
    let mut out = a.to_owned();
    out.append(b);
    out
}

/// Concatenates three pieces.
pub fn cat3(a: &str, b: &str, c: &str) -> (r: String)
    ensures
        r@ == a@ + b@ + c@,
{
    let mut out = cat2(a, b);
    out.append(c);
    out
}

/// Concatenates four pieces.
pub fn cat4(a: &str, b: &str, c: &str, d: &str) -> (r: String)
    ensures
        r@ == a@ + b@ + c@ + d@,
{
    let mut out = cat3(a, b, c);
    out.append(d);
    out
}

/// Concatenates five pieces.
pub fn cat5(a: &str, b: &str, c: &str, d: &str, e: &str) -> (r: String)
    ensures
        r@ == a@ + b@ + c@ + d@ + e@,
{
    let mut out = cat4(a, b, c, d);
    out.append(e);
    out
}

/// Concatenates six pieces.
pub fn cat6(a: &str, b: &str, c: &str, d: &str, e: &str, f: &str) -> (r: String)
    ensures
        r@ == a@ + b@ + c@ + d@ + e@ + f@,
{
    let mut out = cat5(a, b, c, d, e);
    out.append(f);
    out
}

/// Concatenates seven pieces.
pub fn cat7(a: &str, b: &str, c: &str, d: &str, e: &str, f: &str, g: &str) -> (r: String)
    ensures
        r@ == a@ + b@ + c@ + d@ + e@ + f@ + g@,
{
    let mut out = cat6(a, b, c, d, e, f);
    out.append(g);
    out
}

/// The digit character of `d` in a base of at most sixteen, lower case.
pub open spec fn digit_char(d: int) -> char {
    if d < 10 {
        (48 + d) as char
    } else {
        (87 + d) as char
    }
}

/// Returns the digit character of `d`.
pub fn digit_to_char(d: u8) -> (r: char)
    requires
        d < 16,
    ensures
        r == digit_char(d as int),
{
    if d < 10 {
        (48 + d) as char
    } else {
        (87 + d) as char
    }
}

/// Decimal text of a natural number, without leading zeros.
pub open spec fn decimal(n: nat) -> Seq<char>
    decreases n,
{
    if n < 10 {
        seq![digit_char(n as int)]
    } else {
        decimal(n / 10).push(digit_char((n % 10) as int))
    }
}

/// Returns the decimal text of `n`.
pub fn decimal_of(n: u128) -> (r: String)
    ensures
        r@ == decimal(n as nat),
    decreases n,
{
    let d: u8 = (n % 10) as u8;
    if n < 10 {
        let mut out = String::new();
        out.push(digit_to_char(d));
        proof {
            assert(out@ =~= seq![digit_char(n as int)]);
        }
        out
    } else {
        let mut out = decimal_of(n / 10);
        out.push(digit_to_char(d));
        out
    }
}

/// Lower-case hexadecimal text of `n`, cut and zero-padded to `width` digits.
pub open spec fn hex(n: nat, width: nat) -> Seq<char>
    decreases width,
{
    if width == 0 {
        Seq::empty()
    } else {
        hex(n / 16, (width - 1) as nat).push(digit_char((n % 16) as int))
    }
}

/// Returns the `width` low hexadecimal digits of `n`.
pub fn hex_of(n: u128, width: u8) -> (r: String)
    ensures
        r@ == hex(n as nat, width as nat),
    decreases width,
{
    if width == 0 {
        String::new()
    } else {
        let mut out = hex_of(n / 16, width - 1);
        out.push(digit_to_char((n % 16) as u8));
        out
    }
}

/// Whether `a` comes before `b`, of the same length, in the order of characters.
pub open spec fn sorts_before(a: Seq<char>, b: Seq<char>) -> bool {
    exists|i: int|
        0 <= i < a.len() && i < b.len() && #[trigger] a[i] < b[i] && a.take(i) == b.take(i)
}

/// Hexadecimal texts of one width have that width.
pub proof fn lemma_hex_len(n: nat, width: nat)
    ensures
        hex(n, width).len() == width,
    decreases width,
{
    if width > 0 {
        lemma_hex_len(n / 16, (width - 1) as nat);
    }
}

/// Sixteen to the power of `width`: what `width` hexadecimal digits can hold.
pub open spec fn hex_limit(width: nat) -> nat
    decreases width,
{
    if width == 0 {
        1
    } else {
        16 * hex_limit((width - 1) as nat)
    }
}

/// Zero-padded hexadecimal text orders numbers as their values do.
pub proof fn law_hex_keeps_order(a: nat, b: nat, width: nat)
    requires
        a < b < hex_limit(width),
    ensures
        sorts_before(hex(a, width), hex(b, width)),
    decreases width,
{
    let w = (width - 1) as nat;
    let (x, y) = (hex(a, width), hex(b, width));
    let (p, q) = (hex(a / 16, w), hex(b / 16, w));
    lemma_hex_len(a, width);
    lemma_hex_len(b, width);
    lemma_hex_len(a / 16, w);
    lemma_hex_len(b / 16, w);
    if a / 16 == b / 16 {
        assert(x.take(w as int) =~= p);
        assert(y.take(w as int) =~= p);
        assert(x[w as int] < y[w as int]);
    } else {
        law_hex_keeps_order(a / 16, b / 16, w);
        let i = choose|i: int|
            0 <= i < p.len() && i < q.len() && #[trigger] p[i] < q[i] && p.take(i) == q.take(i);
        assert(x[i] == p[i] && y[i] == q[i]);
        assert(x.take(i) =~= p.take(i));
        assert(y.take(i) =~= q.take(i));
    }
}

/// A common front does not change the order.
pub proof fn lemma_sorts_before_front(front: Seq<char>, a: Seq<char>, b: Seq<char>)
    requires
        sorts_before(a, b),
    ensures
        sorts_before(front + a, front + b),
{
    let i = choose|i: int|
        0 <= i < a.len() && i < b.len() && #[trigger] a[i] < b[i] && a.take(i) == b.take(i);
    let n = front.len() as int;
    assert((front + a)[n + i] == a[i]);
    assert((front + b)[n + i] == b[i]);
    assert((front + a).take(n + i) =~= front + a.take(i));
    assert((front + b).take(n + i) =~= front + b.take(i));
}

/// The pieces joined with `sep` between neighbours.
pub open spec fn joined(parts: Seq<Seq<char>>, sep: Seq<char>) -> Seq<char>
    decreases parts.len(),
{
    if parts.len() == 0 {
        Seq::empty()
    } else if parts.len() == 1 {
        parts[0]
    } else {
        joined(parts.drop_last(), sep) + sep + parts.last()
    }
}

/// The contents of a vector of strings.
pub open spec fn views(parts: Seq<String>) -> Seq<Seq<char>> {
    Seq::new(parts.len(), |i: int| parts[i]@)
}

/// Joins `parts` with `sep`.
pub fn join(parts: &[String], sep: &str) -> (r: String)
    ensures
        r@ == joined(views(parts@), sep@),
{
    if parts.len() == 0 {
        return String::new();
    }
    let mut out = parts[0].clone();
    let mut i: usize = 1;
    proof {
        assert(views(parts@).take(1)[0] == parts@[0]@);
    }
    while i < parts.len()
        invariant
            1 <= i <= parts@.len(),
            out@ == joined(views(parts@).take(i as int), sep@),
        decreases parts@.len() - i,
    {
        out.append(sep);
        out.append(parts[i].as_str());
        i = i + 1;
        proof {
            let now = views(parts@).take(i as int);
            assert(now.drop_last() =~= views(parts@).take(i - 1));
            assert(now.last() == parts@[i - 1]@);
        }
    }
    proof {
        assert(views(parts@).take(parts@.len() as int) =~= views(parts@));
    }
    out
}

/// `s` with `mark` written before every character of `special`.
pub open spec fn escaped(s: Seq<char>, special: Set<char>, mark: char) -> Seq<char>
    decreases s.len(),
{
    if s.len() == 0 {
        Seq::empty()
    } else {
        let head = escaped(s.drop_last(), special, mark);
        if special.contains(s.last()) {
            head.push(mark).push(s.last())
        } else {
            head.push(s.last())
        }
    }
}

/// `s` with every `c` written twice.
pub open spec fn doubled(s: Seq<char>, c: char) -> Seq<char> {
    escaped(s, set![c], c)
}

/// Writes every `c` of `s` twice.
pub fn double_char(s: &str, c: char) -> (r: String)
    ensures
        r@ == doubled(s@, c),
{
    let chars = chars_of(s);
    let mut out = String::new();
    let mut i: usize = 0;
    while i < chars.len()
        invariant
            i <= chars@.len(),
            chars@ == s@,
            out@ == doubled(chars@.take(i as int), c),
        decreases chars@.len() - i,
    {
        if chars[i] == c {
            out.push(c);
        }
        out.push(chars[i]);
        i = i + 1;
        proof {
            let now = chars@.take(i as int);
            assert(now.drop_last() =~= chars@.take(i - 1));
            assert(now.last() == chars@[i - 1]);
        }
    }
    proof {
        assert(chars@.take(chars@.len() as int) =~= s@);
    }
    out
}

/// Whether `needle` occurs in `s` as a contiguous piece.
pub open spec fn has_piece(s: Seq<char>, needle: Seq<char>) -> bool {
    exists|i: int|
        0 <= i && i + needle.len() <= s.len() && #[trigger] s.subrange(i, i + needle.len())
            == needle
}

/// Whether `s` begins with `prefix`.
pub open spec fn starts(s: Seq<char>, prefix: Seq<char>) -> bool {
    prefix.len() <= s.len() && s.take(prefix.len() as int) == prefix
}

/// Whether `prefix` stands in `s` at `at`.
fn piece_at(s: &[char], at: usize, piece: &[char]) -> (r: bool)
    requires
        at + piece@.len() <= s@.len(),
    ensures
        r == (s@.subrange(at as int, at + piece@.len()) == piece@),
{
    let n: usize = s.len();
    let mut i: usize = 0;
    while i < piece.len()
        invariant
            i <= piece@.len(),
            n == s@.len(),
            at + piece@.len() <= n,
            forall|j: int| 0 <= j < i ==> s@[at + j] == piece@[j],
        decreases piece@.len() - i,
    {
        if s[at + i] != piece[i] {
            proof {
                assert(s@.subrange(at as int, at + piece@.len())[i as int] != piece@[i as int]);
            }
            return false;
        }
        i = i + 1;
    }
    proof {
        assert(s@.subrange(at as int, at + piece@.len()) =~= piece@);
    }
    true
}

/// Returns whether `needle` occurs in `s`.
pub fn contains_piece(s: &str, needle: &str) -> (r: bool)
    ensures
        r == has_piece(s@, needle@),
{
    let sc = chars_of(s);
    let nc = chars_of(needle);
    if nc.len() > sc.len() {
        return false;
    }
    let last: usize = sc.len() - nc.len();
    let mut i: usize = 0;
    while i <= last
        invariant
            sc@ == s@,
            nc@ == needle@,
            last == sc@.len() - nc@.len(),
            i <= last + 1,
            forall|j: int|
                0 <= j < i ==> #[trigger] s@.subrange(j, j + needle@.len()) != needle@,
        decreases last + 1 - i,
    {
        if piece_at(sc.as_slice(), i, nc.as_slice()) {
            return true;
        }
        if i == last {
            return false;
        }
        i = i + 1;
    }
    false
}

/// Returns whether `s` begins with `prefix`.
pub fn starts_with(s: &str, prefix: &str) -> (r: bool)
    ensures
        r == starts(s@, prefix@),
{
    let sc = chars_of(s);
    let pc = chars_of(prefix);
    if pc.len() > sc.len() {
        return false;
    }
    proof {
        assert(s@.take(prefix@.len() as int) =~= s@.subrange(0, prefix@.len() as int));
    }
    piece_at(sc.as_slice(), 0, pc.as_slice())
}

/// The pieces of `s` between occurrences of `sep`, in order; always at least one.
pub open spec fn split(s: Seq<char>, sep: char) -> Seq<Seq<char>>
    decreases s.len(),
{
    if s.len() == 0 {
        seq![Seq::empty()]
    } else {
        let head = split(s.drop_last(), sep);
        if s.last() == sep {
            head.push(Seq::empty())
        } else {
            head.drop_last().push(head.last().push(s.last()))
        }
    }
}

/// A split has at least one piece.
pub proof fn lemma_split_nonempty(s: Seq<char>, sep: char)
    ensures
        split(s, sep).len() >= 1,
    decreases s.len(),
{
    if s.len() > 0 {
        lemma_split_nonempty(s.drop_last(), sep);
    }
}

/// Splits `s` at every `sep`.
pub fn split_at_char(s: &str, sep: char) -> (r: Vec<String>)
    ensures
        views(r@) == split(s@, sep),
        r@.len() >= 1,
{
    let chars = chars_of(s);
    let mut out: Vec<String> = Vec::new();
    let mut cur = String::new();
    let mut i: usize = 0;
    proof {
        assert(views(out@).push(cur@) =~= split(chars@.take(0), sep));
    }
    while i < chars.len()
        invariant
            i <= chars@.len(),
            chars@ == s@,
            views(out@).push(cur@) == split(chars@.take(i as int), sep),
        decreases chars@.len() - i,
    {
        let ghost before = views(out@).push(cur@);
        proof {
            let next = chars@.take(i + 1);
            assert(next.drop_last() =~= chars@.take(i as int));
            assert(next.last() == chars@[i as int]);
            assert(before.drop_last() =~= views(out@));
            assert(before.last() == cur@);
        }
        if chars[i] == sep {
            out.push(cur);
            cur = String::new();
            proof {
                assert(views(out@) =~= before);
            }
        } else {
            cur.push(chars[i]);
        }
        i = i + 1;
    }
    let ghost last = cur@;
    let ghost before = views(out@);
    out.push(cur);
    proof {
        assert(views(out@) =~= before.push(last));
        assert(chars@.take(chars@.len() as int) =~= s@);
    }
    out
}

/// Place of the last `c` in `s`, or -1.
pub open spec fn last_place(s: Seq<char>, c: char) -> int
    decreases s.len(),
{
    if s.len() == 0 {
        -1
    } else if s.last() == c {
        s.len() - 1
    } else {
        last_place(s.drop_last(), c)
    }
}

/// Returns the place of the last `c` in `chars`.
pub fn find_last(chars: &Vec<char>, c: char) -> (r: Option<usize>)
    ensures
        r is None <==> last_place(chars@, c) < 0,
        r matches Some(i) ==> i == last_place(chars@, c) && i < chars@.len(),
{
    let mut n: usize = chars.len();
    proof {
        assert(chars@.take(n as int) =~= chars@);
    }
    while n > 0
        invariant
            n <= chars@.len(),
            last_place(chars@, c) == last_place(chars@.take(n as int), c),
        decreases n,
    {
        proof {
            assert(chars@.take(n as int).drop_last() =~= chars@.take(n - 1));
        }
        if chars[n - 1] == c {
            return Some(n - 1);
        }
        n = n - 1;
    }
    None
}

/// `c`, in lower case if it is an ASCII capital.
pub open spec fn lower_char(c: char) -> char {
    if 'A' <= c <= 'Z' {
        (c as int + 32) as char
    } else {
        c
    }
}

/// `s` with its ASCII capitals in lower case.
pub open spec fn lower_ascii(s: Seq<char>) -> Seq<char> {
    Seq::new(s.len(), |i: int| lower_char(s[i]))
}

/// The capital of an ASCII letter; any other character stays.
pub open spec fn upper_char(c: char) -> char {
    if 'a' <= c <= 'z' {
        (c as int - 32) as char
    } else {
        c
    }
}

/// `s` with its ASCII letters as capitals.
pub open spec fn upper_ascii(s: Seq<char>) -> Seq<char> {
    Seq::new(s.len(), |i: int| upper_char(s[i]))
}

/// Whether all characters are ASCII.
pub open spec fn ascii(s: Seq<char>) -> bool {
    forall|i: int| 0 <= i < s.len() ==> 128 > #[trigger] s[i] as nat
}

/// Returns `s` with its ASCII capitals in lower case.
pub fn to_lower_ascii(s: &str) -> (r: String)
    ensures
        r@ == lower_ascii(s@),
{
    let chars = chars_of(s);
    let mut out = String::new();
    let mut i: usize = 0;
    while i < chars.len()
        invariant
            i <= chars@.len(),
            chars@ == s@,
            out@ == lower_ascii(s@).take(i as int),
        decreases chars@.len() - i,
    {
        let c = chars[i];
        if 'A' <= c && c <= 'Z' {
            out.push(((c as u8) + 32) as char);
        } else {
            out.push(c);
        }
        i = i + 1;
        proof {
            assert(out@ =~= lower_ascii(s@).take(i as int));
        }
    }
    proof {
        assert(lower_ascii(s@).take(s@.len() as int) =~= lower_ascii(s@));
    }
    out
}

/// Why a text is not a number of the wanted width.
#[derive(Clone, Copy, Debug, PartialEq, Eq, Structural)]
pub enum ParseIntError {
    /// There is no digit at all.
    Empty,
    /// A character is no digit of the base.
    InvalidDigit,
    /// The number is larger than the target allows.
    PosOverflow,
}

impl ParseIntError {
    /// What the error reads as.
    pub open spec fn message(self) -> Seq<char> {
        match self {
            ParseIntError::Empty => "cannot parse integer from empty string"@,
            ParseIntError::InvalidDigit => "invalid digit found in string"@,
            ParseIntError::PosOverflow => "number too large to fit in target type"@,
        }
    }

    /// Returns the error's text.
    pub fn as_str(&self) -> (r: &'static str)
        ensures
            r@ == self.message(),
    {
        match self {
            ParseIntError::Empty => "cannot parse integer from empty string",
            ParseIntError::InvalidDigit => "invalid digit found in string",
            ParseIntError::PosOverflow => "number too large to fit in target type",
        }
    }
}

/// The value of a digit character in `radix`, if it is one.
pub open spec fn digit_value(c: char, radix: int) -> Option<int> {
    let v = if '0' <= c <= '9' {
        c as int - 48
    } else if 'a' <= c <= 'f' {
        c as int - 87
    } else if 'A' <= c <= 'F' {
        c as int - 55
    } else {
        99
    };
    if v < radix {
        Some(v)
    } else {
        None
    }
}

/// Reads digits from the left; the first character that cannot be taken decides the error.
pub open spec fn parse_digits(s: Seq<char>, radix: int, max: int) -> Result<int, ParseIntError>
    decreases s.len(),
{
    if s.len() == 0 {
        Ok(0)
    } else {
        match parse_digits(s.drop_last(), radix, max) {
            Err(e) => Err(e),
            Ok(v) => match digit_value(s.last(), radix) {
                None => Err(ParseIntError::InvalidDigit),
                Some(d) => if v * radix + d > max {
                    Err(ParseIntError::PosOverflow)
                } else {
                    Ok(v * radix + d)
                },
            },
        }
    }
}

/// Reads an unsigned number in `radix`: an optional `+`, then at least one digit.
pub open spec fn parse_unsigned(s: Seq<char>, radix: int, max: int) -> Result<int, ParseIntError> {
    if s.len() == 0 {
        Err(ParseIntError::Empty)
    } else if s[0] == '+' {
        if s.len() == 1 {
            Err(ParseIntError::InvalidDigit)
        } else {
            parse_digits(s.skip(1), radix, max)
        }
    } else {
        parse_digits(s, radix, max)
    }
}

/// Returns the value of a digit character.
fn digit_of(c: char, radix: u8) -> (r: Option<u8>)
    requires
        radix <= 16,
    ensures
        r is Some <==> digit_value(c, radix as int) is Some,
        r matches Some(v) ==> digit_value(c, radix as int) == Some(v as int) && v < radix,
{
    let v: u8 = if '0' <= c && c <= '9' {
        (c as u8) - 48
    } else if 'a' <= c && c <= 'f' {
        (c as u8) - 87
    } else if 'A' <= c && c <= 'F' {
        (c as u8) - 55
    } else {
        99
    };
    if v < radix {
        Some(v)
    } else {
        None
    }
}

/// Parsing digits stops at the first error: a longer text keeps the error of its prefix.
proof fn lemma_parse_prefix_error(s: Seq<char>, n: int, radix: int, max: int)
    requires
        0 <= n <= s.len(),
        parse_digits(s.take(n), radix, max) is Err,
    ensures
        parse_digits(s, radix, max) == parse_digits(s.take(n), radix, max),
    decreases s.len() - n,
{
    if n < s.len() {
        assert(s.take(n + 1).drop_last() =~= s.take(n));
        lemma_parse_prefix_error(s, n + 1, radix, max);
    } else {
        assert(s.take(n) =~= s);
    }
}

/// Parses an unsigned 64-bit number in `radix`.
pub fn parse_u64(s: &str, radix: u8) -> (r: Result<u64, ParseIntError>)
    requires
        2 <= radix <= 16,
    ensures
        r matches Ok(v) ==> parse_unsigned(s@, radix as int, u64::MAX as int) == Ok::<
            int,
            ParseIntError,
        >(v as int),
        r matches Err(e) ==> parse_unsigned(s@, radix as int, u64::MAX as int) == Err::<
            int,
            ParseIntError,
        >(e),
{
    let chars = chars_of(s);
    if chars.len() == 0 {
        return Err(ParseIntError::Empty);
    }
    let mut start: usize = 0;
    if chars[0] == '+' {
        if chars.len() == 1 {
            return Err(ParseIntError::InvalidDigit);
        }
        start = 1;
    }
    let ghost digits = s@.skip(start as int);
    let ghost m = u64::MAX as int;
    proof {
        assert(start == 0 ==> digits =~= s@);
    }
    let mut v: u64 = 0;
    let mut i: usize = start;
    while i < chars.len()
        invariant
            start <= i <= chars@.len(),
            2 <= radix <= 16,
            chars@ == s@,
            digits == s@.skip(start as int),
            m == u64::MAX,
            parse_unsigned(s@, radix as int, m) == parse_digits(digits, radix as int, m),
            parse_digits(digits.take(i - start), radix as int, m) == Ok::<int, ParseIntError>(
                v as int,
            ),
        decreases chars@.len() - i,
    {
        proof {
            let next = digits.take(i + 1 - start);
            assert(next.drop_last() =~= digits.take(i - start));
            assert(next.last() == chars@[i as int]);
        }
        let step: u128 = match digit_of(chars[i], radix) {
            None => {
                proof {
                    lemma_parse_prefix_error(digits, i + 1 - start, radix as int, m);
                }
                return Err(ParseIntError::InvalidDigit);
            },
            Some(d) => {
                proof {
                    assert(v * radix <= 0xffff_ffff_ffff_ffff * 16) by (nonlinear_arith)
                        requires
                            v <= 0xffff_ffff_ffff_ffff,
                            radix <= 16,
                    ;
                }
                (v as u128) * (radix as u128) + (d as u128)
            },
        };
        if step > 0xffff_ffff_ffff_ffff {
            proof {
                lemma_parse_prefix_error(digits, i + 1 - start, radix as int, m);
            }
            return Err(ParseIntError::PosOverflow);
        }
        v = step as u64;
        i = i + 1;
    }
    proof {
        assert(digits.take(chars@.len() - start) =~= digits);
    }
    Ok(v)
}

/// What `str::to_lowercase` of the standard library returns for a text that is not ASCII.
pub uninterp spec fn unicode_lowercase(s: Seq<char>) -> Seq<char>;

/// A text in lowercase.
pub open spec fn lowercased(s: Seq<char>) -> Seq<char> {
    if ascii(s) {
        lower_ascii(s)
    } else {
        unicode_lowercase(s)
    }
}

/// Returns the text in lowercase, by `str::to_lowercase` of the standard library. In an ASCII text
/// the capitals become small letters and all else stays. For another text the result is a function of
/// the text alone, which the Unicode tables define.
#[verifier::external_body]
pub(crate) fn to_unicode_lowercase(s: &str) -> (r: String)
    ensures
        r@ == if ascii(s@) {
            lower_ascii(s@)
        } else {
            unicode_lowercase(s@)
        },
{
    s.to_lowercase()
}

/// What `str::to_uppercase` of the standard library returns for a text that is not ASCII.
pub uninterp spec fn unicode_uppercase(s: Seq<char>) -> Seq<char>;

/// A text in uppercase.
pub open spec fn uppercased(s: Seq<char>) -> Seq<char> {
    if ascii(s) {
        upper_ascii(s)
    } else {
        unicode_uppercase(s)
    }
}

/// Returns the text in uppercase, by `str::to_uppercase` of the standard library. In an ASCII text
/// the small letters become capitals and all else stays. For another text the result is a function of
/// the text alone, which the Unicode tables define.
#[verifier::external_body]
pub(crate) fn to_unicode_uppercase(s: &str) -> (r: String)
    ensures
        r@ == if ascii(s@) {
            upper_ascii(s@)
        } else {
            unicode_uppercase(s@)
        },
{
    s.to_uppercase()
}

/// Decimal text holds digits only and reads as its number.
pub proof fn law_decimal_reads_back(n: nat, max: int)
    requires
        n <= max,
    ensures
        decimal(n).len() >= 1,
        forall|i: int| 0 <= i < decimal(n).len() ==> '0' <= #[trigger] decimal(n)[i] <= '9',
        parse_digits(decimal(n), 10, max) == Ok::<int, ParseIntError>(n as int),
        parse_unsigned(decimal(n), 10, max) == Ok::<int, ParseIntError>(n as int),
    decreases n,
{
    let d = (n % 10) as int;
    assert(digit_value(digit_char(d), 10) == Some(d));
    if n < 10 {
        let s = seq![digit_char(n as int)];
        assert(s.drop_last() =~= Seq::<char>::empty());
        assert(parse_digits(s.drop_last(), 10, max) == Ok::<int, ParseIntError>(0));
        assert(s.last() == digit_char(d));
    } else {
        law_decimal_reads_back(n / 10, max);
        let s = decimal(n);
        assert(s.drop_last() =~= decimal(n / 10));
        assert(s.last() == digit_char(d));
    }
    assert(decimal(n)[0] != '+');
}

/// Hexadecimal text reads as its number.
pub proof fn law_hex_reads_back(n: nat, width: nat, max: int)
    requires
        n < hex_limit(width),
        n <= max,
    ensures
        hex(n, width).len() == width,
        forall|i: int| 0 <= i < width ==> digit_value(#[trigger] hex(n, width)[i], 16) is Some,
        parse_digits(hex(n, width), 16, max) == Ok::<int, ParseIntError>(n as int),
        width > 0 ==> parse_unsigned(hex(n, width), 16, max) == Ok::<int, ParseIntError>(n as int),
    decreases width,
{
    lemma_hex_len(n, width);
    if width > 0 {
        let w = (width - 1) as nat;
        let d = (n % 16) as int;
        law_hex_reads_back(n / 16, w, max);
        let s = hex(n, width);
        assert(digit_value(digit_char(d), 16) == Some(d));
        assert(s.drop_last() =~= hex(n / 16, w));
        assert(s.last() == digit_char(d));
        assert(n == (n / 16) * 16 + d);
        assert forall|i: int| 0 <= i < width implies digit_value(
            #[trigger] hex(n, width)[i],
            16,
        ) is Some by {
            if i < w {
                assert(hex(n, width)[i] == hex(n / 16, w)[i]);
            }
        }
        assert(digit_value(s[0], 16) is Some);
        assert(s[0] != '+');
    }
}

/// Place of the first `c` in `s`, or the length of `s`.
pub open spec fn first_place(s: Seq<char>, c: char) -> nat
    decreases s.len(),
{
    if s.len() == 0 || s[0] == c {
        0
    } else {
        1 + first_place(s.skip(1), c)
    }
}

/// The first place holds the character, and none before it does.
pub proof fn lemma_first_place(s: Seq<char>, c: char)
    ensures
        first_place(s, c) <= s.len(),
        first_place(s, c) < s.len() ==> s[first_place(s, c) as int] == c,
        forall|i: int| 0 <= i < first_place(s, c) ==> #[trigger] s[i] != c,
    decreases s.len(),
{
    if s.len() > 0 && s[0] != c {
        lemma_first_place(s.skip(1), c);
        assert forall|i: int| 0 <= i < first_place(s, c) implies #[trigger] s[i] != c by {
            if i > 0 {
                assert(s.skip(1)[i - 1] == s[i]);
            }
        }
    }
}

/// A place before which the character does not stand is the first.
pub proof fn lemma_is_first_place(s: Seq<char>, c: char, n: nat)
    requires
        n <= s.len(),
        n < s.len() ==> s[n as int] == c,
        forall|i: int| 0 <= i < n ==> #[trigger] s[i] != c,
    ensures
        first_place(s, c) == n,
{
    lemma_first_place(s, c);
}

/// Finds the first `c`.
pub fn find_first(chars: &Vec<char>, c: char) -> (r: Option<usize>)
    ensures
        match r {
            Some(i) => i < chars@.len() && i == first_place(chars@, c),
            None => first_place(chars@, c) == chars@.len(),
        },
{
    let n: usize = chars.len();
    let mut i: usize = 0;
    while i < n
        invariant
            i <= n,
            n == chars@.len(),
            forall|j: int| 0 <= j < i ==> #[trigger] chars@[j] != c,
        decreases n - i,
    {
        if chars[i] == c {
            proof {
                lemma_is_first_place(chars@, c, i as nat);
            }
            return Some(i);
        }
        i = i + 1;
    }
    proof {
        lemma_is_first_place(chars@, c, n as nat);
    }
    None
}

/// Decimal text of a number with its sign.
pub open spec fn signed_decimal(n: int) -> Seq<char> {
    if n < 0 {
        "-"@ + decimal((-n) as nat)
    } else {
        decimal(n as nat)
    }
}

/// Returns the decimal text of a number with its sign.
pub fn signed_decimal_of(n: i64) -> (r: String)
    ensures
        r@ == signed_decimal(n as int),
{
    if n < 0 {
        let digits = decimal_of((-(n as i128)) as u128);
        cat2("-", digits.as_str())
    } else {
        decimal_of(n as u128)
    }
}

/// Parses an unsigned 128-bit decimal number.
pub fn parse_u128(s: &str) -> (r: Result<u128, ParseIntError>)
    ensures
        r matches Ok(v) ==> parse_unsigned(s@, 10, u128::MAX as int) == Ok::<int, ParseIntError>(
            v as int,
        ),
        r matches Err(e) ==> parse_unsigned(s@, 10, u128::MAX as int) == Err::<int, ParseIntError>(
            e,
        ),
{
    let chars = chars_of(s);
    if chars.len() == 0 {
        return Err(ParseIntError::Empty);
    }
    let mut start: usize = 0;
    if chars[0] == '+' {
        if chars.len() == 1 {
            return Err(ParseIntError::InvalidDigit);
        }
        start = 1;
    }
    let ghost digits = s@.skip(start as int);
    let ghost m = u128::MAX as int;
    proof {
        assert(start == 0 ==> digits =~= s@);
    }
    let mut v: u128 = 0;
    let mut i: usize = start;
    while i < chars.len()
        invariant
            start <= i <= chars@.len(),
            chars@ == s@,
            digits == s@.skip(start as int),
            m == u128::MAX,
            parse_unsigned(s@, 10, m) == parse_digits(digits, 10, m),
            parse_digits(digits.take(i - start), 10, m) == Ok::<int, ParseIntError>(v as int),
        decreases chars@.len() - i,
    {
        proof {
            let next = digits.take(i + 1 - start);
            assert(next.drop_last() =~= digits.take(i - start));
            assert(next.last() == chars@[i as int]);
        }
        let d: u8 = match digit_of(chars[i], 10) {
            None => {
                proof {
                    lemma_parse_prefix_error(digits, i + 1 - start, 10, m);
                }
                return Err(ParseIntError::InvalidDigit);
            },
            Some(d) => d,
        };
        if v > (u128::MAX - (d as u128)) / 10 {
            proof {
                lemma_parse_prefix_error(digits, i + 1 - start, 10, m);
            }
            return Err(ParseIntError::PosOverflow);
        }
        v = v * 10 + (d as u128);
        i = i + 1;
    }
    proof {
        assert(digits.take(chars@.len() - start) =~= digits);
    }
    Ok(v)
}

/// The number that a digit character stands for.
pub open spec fn place_value(c: char) -> int {
    if 'a' <= c <= 'f' {
        10 + (c as int - 'a' as int)
    } else {
        c as int - '0' as int
    }
}

/// The number that a run of digits stands for, by their places: each digit counts `base` times as
/// much as the one behind it.
pub open spec fn positional(s: Seq<char>, base: int) -> int
    decreases s.len(),
{
    if s.len() == 0 {
        0
    } else {
        base * positional(s.drop_last(), base) + place_value(s.last())
    }
}

/// The number that a decimal text with an optional minus sign stands for.
pub open spec fn signed_number(s: Seq<char>) -> int {
    if s.len() > 0 && s[0] == '-' {
        -positional(s.skip(1), 10)
    } else {
        positional(s, 10)
    }
}

/// Digits are the characters 0 to 9 and a to f, each for its number.
pub proof fn law_digit_characters(d: int)
    requires
        0 <= d < 16,
    ensures
        place_value(digit_char(d)) == d,
        d < 10 ==> '0' <= digit_char(d) <= '9',
        d >= 10 ==> 'a' <= digit_char(d) <= 'f',
        d < 10 ==> digit_char(d) as int == '0' as int + d,
        d >= 10 ==> digit_char(d) as int == 'a' as int + d - 10,
{
}

/// A decimal text stands for its number, has no sign, and has no zero in front unless it is the zero
/// itself.
pub proof fn law_decimal_stands_for_its_number(n: nat)
    ensures
        positional(decimal(n), 10) == n,
        decimal(n).len() >= 1,
        forall|i: int| 0 <= i < decimal(n).len() ==> '0' <= #[trigger] decimal(n)[i] <= '9',
        n > 0 ==> decimal(n)[0] != '0',
    decreases n,
{
    if n < 10 {
        let s = decimal(n);
        assert(s.drop_last() =~= Seq::<char>::empty());
        law_digit_characters(n as int);
        assert(positional(s, 10) == 10 * positional(s.drop_last(), 10) + place_value(s.last()));
    } else {
        law_decimal_stands_for_its_number(n / 10);
        law_digit_characters((n % 10) as int);
        let s = decimal(n);
        assert(s.drop_last() =~= decimal(n / 10));
        assert forall|i: int| 0 <= i < s.len() implies '0' <= #[trigger] s[i] <= '9' by {
            if i < s.len() - 1 {
                assert(s[i] == decimal(n / 10)[i]);
            }
        }
        assert(s[0] == decimal(n / 10)[0]);
    }
}

/// Different numbers have different decimal texts.
pub proof fn law_decimal_texts_differ(a: nat, b: nat)
    requires
        a != b,
    ensures
        decimal(a) != decimal(b),
{
    law_decimal_stands_for_its_number(a);
    law_decimal_stands_for_its_number(b);
}

/// A signed decimal text stands for its number: a minus sign in front if and only if the number is
/// below zero, and different numbers have different texts.
pub proof fn law_signed_decimal_stands_for_its_number(n: int)
    ensures
        signed_number(signed_decimal(n)) == n,
        signed_decimal(n).len() >= 1,
        signed_decimal(n)[0] == '-' <==> n < 0,
        forall|m: int| m != n ==> #[trigger] signed_decimal(m) != signed_decimal(n),
{
    lemma_signed_decimal_reads(n);
    assert forall|m: int| m != n implies #[trigger] signed_decimal(m) != signed_decimal(n) by {
        lemma_signed_decimal_reads(m);
    }
}

proof fn lemma_signed_decimal_reads(n: int)
    ensures
        signed_number(signed_decimal(n)) == n,
        signed_decimal(n).len() >= 1,
        signed_decimal(n)[0] == '-' <==> n < 0,
{
    reveal_strlit("-");
    if n < 0 {
        let m = (-n) as nat;
        law_decimal_stands_for_its_number(m);
        assert(signed_decimal(n)[0] == '-');
        assert(signed_decimal(n).skip(1) =~= decimal(m));
    } else {
        law_decimal_stands_for_its_number(n as nat);
        assert('0' <= decimal(n as nat)[0]);
    }
}

/// A hexadecimal text stands for its number, with lower-case digits and zeros in front.
pub proof fn law_hex_stands_for_its_number(n: nat, width: nat)
    requires
        n < hex_limit(width),
    ensures
        hex(n, width).len() == width,
        positional(hex(n, width), 16) == n,
        forall|i: int|
            0 <= i < width ==> '0' <= #[trigger] hex(n, width)[i] <= '9' || 'a' <= hex(
                n,
                width,
            )[i] <= 'f',
    decreases width,
{
    if width > 0 {
        let w = (width - 1) as nat;
        law_hex_stands_for_its_number(n / 16, w);
        law_digit_characters((n % 16) as int);
        let s = hex(n, width);
        let front = hex(n / 16, w);
        assert(s.drop_last() =~= front);
        assert forall|i: int| 0 <= i < width implies '0' <= #[trigger] s[i] <= '9' || 'a' <= s[i]
            <= 'f' by {
            if i < w {
                assert(s[i] == front[i]);
            }
        }
    }
}

/// Each hexadecimal digit more holds sixteen times as much.
pub proof fn law_hex_limits()
    ensures
        hex_limit(8) == 0x1_0000_0000,
        hex_limit(16) == 0x1_0000_0000_0000_0000,
        forall|w: nat| hex_limit(w + 1) == 16 * #[trigger] hex_limit(w),
{
    reveal_with_fuel(hex_limit, 17);
}

/// Order of texts is that of the first character in which they differ.
pub proof fn law_order_of_texts(front: Seq<char>, a: char, b: char, x: Seq<char>, y: Seq<char>)
    ensures
        a < b ==> sorts_before(front + seq![a] + x, front + seq![b] + y),
        a < b ==> !sorts_before(front + seq![b] + y, front + seq![a] + x),
        !sorts_before(front, front),
{
    let p = front + seq![a] + x;
    let q = front + seq![b] + y;
    let n = front.len() as int;
    if a < b {
        assert(p[n] == a);
        assert(q[n] == b);
        assert(p.take(n) =~= front);
        assert(q.take(n) =~= front);
        if sorts_before(q, p) {
            let i = choose|i: int|
                0 <= i < q.len() && i < p.len() && #[trigger] q[i] < p[i] && q.take(i) == p.take(i);
            if i < n {
                assert(q[i] == front[i]);
                assert(p[i] == front[i]);
            } else if i > n {
                assert(q.take(i)[n] == b);
                assert(p.take(i)[n] == a);
            }
        }
    }
}

/// A joined text starts with its first piece, and each further piece follows behind a separator.
pub proof fn law_joined_pieces_follow_each_other(
    parts: Seq<Seq<char>>,
    next: Seq<char>,
    sep: Seq<char>,
)
    ensures
        joined(Seq::empty(), sep) == Seq::<char>::empty(),
        joined(seq![next], sep) == next,
        parts.len() > 0 ==> joined(parts.push(next), sep) == joined(parts, sep) + sep + next,
{
    assert(parts.push(next).drop_last() =~= parts);
}

/// Splitting leaves no separator in a piece, and joining the pieces with it gives the text back.
pub proof fn law_split_pieces_join_again(s: Seq<char>, sep: char)
    ensures
        split(s, sep).len() >= 1,
        forall|i: int| 0 <= i < split(s, sep).len() ==> !(#[trigger] split(s, sep)[i]).contains(sep),
        joined(split(s, sep), seq![sep]) == s,
    decreases s.len(),
{
    if s.len() == 0 {
        assert(!Seq::<char>::empty().contains(sep));
    } else {
        let rest = s.drop_last();
        law_split_pieces_join_again(rest, sep);
        let head = split(rest, sep);
        let all = split(s, sep);
        if s.last() == sep {
            assert forall|i: int| 0 <= i < all.len() implies !(#[trigger] all[i]).contains(sep) by {
                if i < head.len() {
                    assert(all[i] == head[i]);
                } else {
                    assert(!Seq::<char>::empty().contains(sep));
                }
            }
            assert(all.drop_last() =~= head);
            assert(joined(all, seq![sep]) =~= rest + seq![sep] + Seq::<char>::empty());
            assert(joined(all, seq![sep]) =~= s);
        } else {
            let last = head.last().push(s.last());
            assert(all.drop_last() =~= head.drop_last());
            assert(all.last() == last);
            assert forall|i: int| 0 <= i < all.len() implies !(#[trigger] all[i]).contains(sep) by {
                if i < head.len() - 1 {
                    assert(all[i] == head[i]);
                } else {
                    assert(all[i] == last);
                    if last.contains(sep) {
                        let k = choose|k: int| 0 <= k < last.len() && last[k] == sep;
                        assert(k < head.last().len());
                        assert(head.last()[k] == sep);
                        assert(head[head.len() - 1].contains(sep));
                    }
                }
            }
            if head.len() == 1 {
                assert(joined(head, seq![sep]) == head[0]);
                assert(joined(all, seq![sep]) == all[0]);
                assert(all[0] =~= s);
            } else {
                assert(joined(all, seq![sep]) =~= joined(head.drop_last(), seq![sep]) + seq![sep]
                    + last);
                assert(joined(all, seq![sep]) =~= joined(head, seq![sep]).push(s.last()));
                assert(joined(all, seq![sep]) =~= s);
            }
        }
    }
}

/// Escaping goes character by character: a special one gets the mark in front, any other stays.
pub proof fn law_escaping_marks_each_special_character(
    s: Seq<char>,
    c: char,
    special: Set<char>,
    mark: char,
)
    ensures
        escaped(Seq::empty(), special, mark) == Seq::<char>::empty(),
        special.contains(c) ==> escaped(s.push(c), special, mark) == escaped(s, special, mark)
            + seq![mark, c],
        !special.contains(c) ==> escaped(s.push(c), special, mark) == escaped(s, special, mark)
            + seq![c],
        doubled(s.push(c), c) == doubled(s, c) + seq![c, c],
        forall|d: char| d != c ==> doubled(s.push(c), d) == #[trigger] doubled(s, d) + seq![c],
{
    assert(s.push(c).drop_last() =~= s);
}

/// The last place holds the character and none behind it does; without a place the character does
/// not occur.
pub proof fn law_last_place_is_the_last(s: Seq<char>, c: char)
    ensures
        last_place(s, c) < s.len(),
        last_place(s, c) >= 0 ==> s[last_place(s, c)] == c,
        forall|i: int| 0 <= i < s.len() && last_place(s, c) < i ==> #[trigger] s[i] != c,
    decreases s.len(),
{
    if s.len() > 0 && s.last() != c {
        law_last_place_is_the_last(s.drop_last(), c);
        assert forall|i: int| 0 <= i < s.len() && last_place(s, c) < i implies #[trigger] s[i]
            != c by {
            if i < s.len() - 1 {
                assert(s.drop_last()[i] == s[i]);
            }
        }
    }
}

/// Only the letters change their case, and each becomes the letter at the same place of the other
/// alphabet.
pub proof fn law_letters_change_their_case(s: Seq<char>)
    ensures
        lower_ascii(s).len() == s.len(),
        upper_ascii(s).len() == s.len(),
        forall|i: int|
            0 <= i < s.len() ==> {
                let c = #[trigger] s[i];
                &&& 'A' <= c <= 'Z' ==> lower_ascii(s)[i] as int - 'a' as int == c as int
                    - 'A' as int && upper_ascii(s)[i] == c
                &&& 'a' <= c <= 'z' ==> upper_ascii(s)[i] as int - 'A' as int == c as int
                    - 'a' as int && lower_ascii(s)[i] == c
                &&& !('A' <= c <= 'Z') && !('a' <= c <= 'z') ==> lower_ascii(s)[i] == c
                    && upper_ascii(s)[i] == c
            },
{
}

/// What a text of digits is read as is the number that it stands for, if that is no larger than
/// allowed; without a digit, or with another character, it is read as none.
pub proof fn law_numbers_are_read_by_place(s: Seq<char>, max: int)
    requires
        max >= 9,
    ensures
        parse_unsigned(s, 10, max) matches Ok(v) ==> 0 <= v <= max && v == positional(
            if s[0] == '+' {
                s.skip(1)
            } else {
                s
            },
            10,
        ),
        s.len() == 0 ==> parse_unsigned(s, 10, max) == Err::<int, ParseIntError>(
            ParseIntError::Empty,
        ),
        s.len() > 0 && (forall|i: int| 0 <= i < s.len() ==> '0' <= #[trigger] s[i] <= '9')
            && positional(s, 10) <= max ==> parse_unsigned(s, 10, max) == Ok::<int, ParseIntError>(
            positional(s, 10),
        ),
        s.len() > 0 && (forall|i: int| 0 <= i < s.len() ==> '0' <= #[trigger] s[i] <= '9')
            && positional(s, 10) > max ==> parse_unsigned(s, 10, max) == Err::<int, ParseIntError>(
            ParseIntError::PosOverflow,
        ),
        s.len() > 0 && !('0' <= s[0] <= '9') && s[0] != '+' ==> parse_unsigned(s, 10, max) == Err::<
            int,
            ParseIntError,
        >(ParseIntError::InvalidDigit),
{
    lemma_digits_are_read_by_place(s, max);
    if s.len() > 0 {
        lemma_digits_are_read_by_place(s.skip(1), max);
        if !('0' <= s[0] <= '9') && s[0] != '+' {
            let one = s.take(1);
            assert(one.drop_last() =~= Seq::<char>::empty());
            assert(one.last() == s[0]);
            assert(parse_digits(one.drop_last(), 10, max) == Ok::<int, ParseIntError>(0));
            assert(digit_value(s[0], 10) is None);
            lemma_parse_prefix_error(s, 1, 10, max);
        }
    }
}

proof fn lemma_digits_are_read_by_place(s: Seq<char>, max: int)
    requires
        max >= 9,
    ensures
        parse_digits(s, 10, max) matches Ok(v) ==> 0 <= v <= max && v == positional(s, 10),
        (forall|i: int| 0 <= i < s.len() ==> '0' <= #[trigger] s[i] <= '9') ==> positional(s, 10)
            >= 0,
        (forall|i: int| 0 <= i < s.len() ==> '0' <= #[trigger] s[i] <= '9') && positional(s, 10)
            <= max ==> parse_digits(s, 10, max) == Ok::<int, ParseIntError>(positional(s, 10)),
        (forall|i: int| 0 <= i < s.len() ==> '0' <= #[trigger] s[i] <= '9') && positional(s, 10)
            > max ==> parse_digits(s, 10, max) == Err::<int, ParseIntError>(
            ParseIntError::PosOverflow,
        ),
    decreases s.len(),
{
    if s.len() > 0 {
        let rest = s.drop_last();
        lemma_digits_are_read_by_place(rest, max);
        if forall|i: int| 0 <= i < s.len() ==> '0' <= #[trigger] s[i] <= '9' {
            assert forall|i: int| 0 <= i < rest.len() implies '0' <= #[trigger] rest[i] <= '9' by {
                assert(rest[i] == s[i]);
            }
            assert('0' <= s[s.len() - 1] <= '9');
        }
    }
}

/// What is said of a text that is no number.
pub proof fn law_parse_messages()
    ensures
        ParseIntError::Empty.message() == "cannot parse integer from empty string"@,
        ParseIntError::InvalidDigit.message() == "invalid digit found in string"@,
        ParseIntError::PosOverflow.message() == "number too large to fit in target type"@,
{
}

/// What follows the first difference of two texts does not change their order.
pub proof fn lemma_sorts_before_back(a: Seq<char>, b: Seq<char>, x: Seq<char>, y: Seq<char>)
    requires
        sorts_before(a, b),
    ensures
        sorts_before(a + x, b + y),
{
    let i = choose|i: int|
        0 <= i < a.len() && i < b.len() && #[trigger] a[i] < b[i] && a.take(i) == b.take(i);
    assert((a + x)[i] == a[i]);
    assert((b + y)[i] == b[i]);
    assert((a + x).take(i) =~= a.take(i));
    assert((b + y).take(i) =~= b.take(i));
}

/// A text that sorts before another differs from it and does not sort behind it.
pub proof fn law_sorted_texts_differ(a: Seq<char>, b: Seq<char>)
    requires
        sorts_before(a, b),
    ensures
        a != b,
        !sorts_before(b, a),
{
    let i = choose|i: int|
        0 <= i < a.len() && i < b.len() && #[trigger] a[i] < b[i] && a.take(i) == b.take(i);
    if sorts_before(b, a) {
        let j = choose|j: int|
            0 <= j < b.len() && j < a.len() && #[trigger] b[j] < a[j] && b.take(j) == a.take(j);
        if j < i {
            assert(a.take(i)[j] == a[j]);
            assert(b.take(i)[j] == b[j]);
        } else if i < j {
            assert(a.take(j)[i] == a[i]);
            assert(b.take(j)[i] == b[i]);
        }
    }
}

/// A text without the separator is one piece.
pub proof fn law_plain_text_is_one_piece(s: Seq<char>, sep: char)
    requires
        !s.contains(sep),
    ensures
        split(s, sep) == seq![s],
    decreases s.len(),
{
    if s.len() == 0 {
        assert(s =~= Seq::<char>::empty());
        assert(split(s, sep) =~= seq![s]);
    } else {
        let rest = s.drop_last();
        assert(s[s.len() - 1] == s.last());
        assert(s.contains(s.last()));
        assert(!rest.contains(sep)) by {
            if rest.contains(sep) {
                let i = choose|i: int| 0 <= i < rest.len() && rest[i] == sep;
                assert(s[i] == sep);
            }
        }
        law_plain_text_is_one_piece(rest, sep);
        assert(rest.push(s.last()) =~= s);
        assert(split(s, sep) =~= seq![s]);
    }
}

/// The pieces of a text around a separator are the pieces before it, then the pieces behind it.
pub proof fn law_separator_ends_a_piece(a: Seq<char>, b: Seq<char>, sep: char)
    ensures
        split(a.push(sep) + b, sep) == split(a, sep) + split(b, sep),
    decreases b.len(),
{
    let s = a.push(sep) + b;
    if b.len() == 0 {
        assert(s =~= a.push(sep));
        assert(s.drop_last() =~= a);
        assert(split(s, sep) =~= split(a, sep) + split(b, sep));
    } else {
        let rest = b.drop_last();
        law_separator_ends_a_piece(a, rest, sep);
        lemma_split_nonempty(rest, sep);
        assert(s.drop_last() =~= a.push(sep) + rest);
        assert(s.last() == b.last());
        let head = split(a, sep) + split(rest, sep);
        assert(head.last() == split(rest, sep).last());
        assert(head.drop_last() =~= split(a, sep) + split(rest, sep).drop_last());
        assert(split(s, sep) =~= split(a, sep) + split(b, sep));
    }
}

/// The contents of strings are those of each, in order.
pub proof fn law_strings_are_viewed_in_order(parts: Seq<String>)
    ensures
        views(parts).len() == parts.len(),
        forall|i: int| 0 <= i < parts.len() ==> #[trigger] views(parts)[i] == parts[i]@,
{
}

/// A written number reads back: the text that is returned for it stands for it.
pub proof fn law_written_numbers_read_back(n: u128, m: i64, text: String, signed: String)
    requires
        call_ensures(decimal_of, (n,), text),
        call_ensures(signed_decimal_of, (m,), signed),
    ensures
        positional(text@, 10) == n,
        signed_number(signed@) == m,
{
    law_decimal_stands_for_its_number(n as nat);
    law_signed_decimal_stands_for_its_number(m as int);
}

/// Joined texts follow each other and keep all their characters.
pub proof fn law_texts_follow_each_other(a: &str, b: &str, c: &str, two: String, three: String)
    requires
        call_ensures(cat2, (a, b), two),
        call_ensures(cat3, (a, b, c), three),
    ensures
        two@.len() == a@.len() + b@.len(),
        two@.take(a@.len() as int) == a@,
        two@.skip(a@.len() as int) == b@,
        three@ == two@ + c@,
{
}

/// Two texts are equal if and only if all their characters are.
pub proof fn law_equal_texts_have_equal_characters(a: &str, b: &str, r: bool)
    requires
        call_ensures(str_eq, (a, b), r),
    ensures
        r <==> a@.len() == b@.len() && forall|i: int|
            0 <= i < a@.len() ==> #[trigger] a@[i] == b@[i],
{
    if a@.len() == b@.len() && (forall|i: int| 0 <= i < a@.len() ==> #[trigger] a@[i] == b@[i]) {
        assert(a@ =~= b@);
    }
}

} // verus!
