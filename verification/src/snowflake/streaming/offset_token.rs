//! Positions in the source's log as channels carry them.
use std::str::FromStr;

use vstd::prelude::*;

use crate::event::{sequence_text, EventSequenceKey, PgLsn};
use crate::snowflake::error::{Error, SnowflakeResult};
use crate::text::{
    cat2, chars_of, find_first, first_place, hex, hex_limit, law_hex_reads_back,
    lemma_first_place, lemma_is_first_place, parse_u64, parse_unsigned, string_of,
};

verus! {

/// An offset token encoding a WAL position as a hex string.
///
/// Format: `{commit_lsn:016x}/{tx_ordinal:016x}`.
#[derive(Debug, PartialEq, Eq)]
pub struct OffsetToken(pub String);

/// The position that a token tells, or why it tells none.
pub open spec fn decoded(token: Seq<char>) -> Result<(u64, u64), Seq<char>> {
    let at = first_place(token, '/') as int;
    if at == token.len() {
        Err("invalid offset token format: "@ + token)
    } else {
        match parse_unsigned(token.take(at), 16, u64::MAX as int) {
            Err(e) => Err("invalid LSN hex in offset token: "@ + e.message()),
            Ok(lsn) => match parse_unsigned(token.skip(at + 1), 16, u64::MAX as int) {
                Err(e) => Err("invalid ordinal hex in offset token: "@ + e.message()),
                Ok(ord) => Ok((lsn as u64, ord as u64)),
            },
        }
    }
}

impl OffsetToken {
    /// The zero offset token, used for initial copy rows before any WAL
    /// position.
    pub fn zero() -> (r: Self)
        ensures
            r.0@ == sequence_text(0, 0),
    {
        OffsetToken::new(PgLsn(0), 0)
    }

    /// Encode a WAL position as an offset token.
    pub fn new(commit_lsn: PgLsn, tx_ordinal: u64) -> (r: Self)
        ensures
            r.0@ == sequence_text(commit_lsn.0 as nat, tx_ordinal as nat),
    {
        OffsetToken(EventSequenceKey::new(commit_lsn, tx_ordinal).to_text())
    }

    /// Decode the token back to `(commit_lsn, tx_ordinal)`.
    pub fn decode(&self) -> (r: SnowflakeResult<(PgLsn, u64)>)
        ensures
            match decoded(self.0@) {
                Ok(p) => r matches Ok(q) && q.0.0 == p.0 && q.1 == p.1,
                Err(e) => r matches Err(Error::Channel(f)) && f@ == e,
            },
    {
        let token = self.0.as_str();
        let chars = chars_of(token);
        let n: usize = chars.len();
        let at: usize = match find_first(&chars, '/') {
            Some(at) => at,
            None => {
                return Err(Error::Channel(cat2("invalid offset token format: ", token)));
            },
        };
        let lsn_hex = string_of(chars.as_slice(), 0, at);
        let ord_hex = string_of(chars.as_slice(), at + 1, n);
        proof {
            assert(lsn_hex@ =~= token@.take(at as int));
            assert(ord_hex@ =~= token@.skip(at + 1));
        }
        let lsn: u64 = match parse_u64(lsn_hex.as_str(), 16) {
            Ok(lsn) => lsn,
            Err(e) => {
                return Err(Error::Channel(cat2("invalid LSN hex in offset token: ", e.as_str())));
            },
        };
        let ord: u64 = match parse_u64(ord_hex.as_str(), 16) {
            Ok(ord) => ord,
            Err(e) => {
                return Err(
                    Error::Channel(cat2("invalid ordinal hex in offset token: ", e.as_str())),
                );
            },
        };
        Ok((PgLsn(lsn), ord))
    }

    /// Returns the token's text.
    pub fn as_str(&self) -> (r: &str)
        ensures
            r@ == self.0@,
    {
        self.0.as_str()
    }

    /// Takes a text as a token, if it tells a position.
    pub fn parse(s: &str) -> (r: SnowflakeResult<OffsetToken>)
        ensures
            match decoded(s@) {
                Ok(_) => r matches Ok(token) && token.0@ == s@,
                Err(e) => r matches Err(Error::Channel(f)) && f@ == e,
            },
    {
        let token = OffsetToken(s.to_owned());
        match token.decode() {
            Ok(_) => Ok(token),
            Err(e) => Err(e),
        }
    }
}

impl Clone for OffsetToken {
    fn clone(&self) -> (r: Self)
        ensures
            r == *self,
    {
        OffsetToken(self.0.clone())
    }
}

impl Default for OffsetToken {
    fn default() -> (r: Self)
        ensures
            r.0@ == sequence_text(0, 0),
    {
        OffsetToken::zero()
    }
}

impl FromStr for OffsetToken {
    type Err = Error;

    fn from_str(s: &str) -> (r: SnowflakeResult<Self>)
        ensures
            match decoded(s@) {
                Ok(_) => r matches Ok(token) && token.0@ == s@,
                Err(e) => r matches Err(Error::Channel(f)) && f@ == e,
            },
    {
        OffsetToken::parse(s)
    }
}

proof fn lemma_sixteen_digits()
    ensures
        hex_limit(16) == 0x1_0000_0000_0000_0000,
{
    reveal_with_fuel(hex_limit, 17);
}

/// A token tells the position that it was made of.
pub proof fn law_token_decodes_to_its_position(commit_lsn: u64, tx_ordinal: u64)
    ensures
        decoded(sequence_text(commit_lsn as nat, tx_ordinal as nat)) == Ok::<
            (u64, u64),
            Seq<char>,
        >((commit_lsn, tx_ordinal)),
{
    reveal_strlit("/");
    lemma_sixteen_digits();
    let (a, b) = (hex(commit_lsn as nat, 16), hex(tx_ordinal as nat, 16));
    law_hex_reads_back(commit_lsn as nat, 16, u64::MAX as int);
    law_hex_reads_back(tx_ordinal as nat, 16, u64::MAX as int);
    let token = sequence_text(commit_lsn as nat, tx_ordinal as nat);
    assert forall|i: int| 0 <= i < 16 implies #[trigger] token[i] != '/' by {
        assert(token[i] == a[i]);
    }
    assert(token[16] == '/');
    lemma_is_first_place(token, '/', 16);
    assert(token.take(16) =~= a);
    assert(token.skip(17) =~= b);
}

/// A token without a slash, or without a number on either side of its first slash, is refused.
pub proof fn law_tokens_need_two_numbers(token: Seq<char>, high: Seq<char>, low: Seq<char>)
    ensures
        !token.contains('/') ==> decoded(token) is Err,
        decoded(seq!['/'] + low) is Err,
        !high.contains('/') ==> decoded(high.push('/')) is Err,
{
    if !token.contains('/') {
        lemma_first_place(token, '/');
        let at = first_place(token, '/') as int;
        if at < token.len() {
            assert(token[at] == '/');
            assert(token.contains('/'));
        }
    }
    let a = seq!['/'] + low;
    assert(a[0] == '/');
    lemma_is_first_place(a, '/', 0);
    assert(a.take(0) =~= Seq::<char>::empty());
    if !high.contains('/') {
        let b = high.push('/');
        assert forall|i: int| 0 <= i < high.len() implies #[trigger] b[i] != '/' by {
            assert(b[i] == high[i]);
            assert(high.contains(high[i]));
        }
        lemma_is_first_place(b, '/', high.len());
        assert(b.skip(high.len() as int + 1) =~= Seq::<char>::empty());
    }
}

/// A text is taken as a token if and only if it decodes, and stays as it is; a token decodes to the
/// position that it was made of.
pub proof fn law_tokens_are_parsed_as_they_are(
    s: &str,
    token: SnowflakeResult<OffsetToken>,
    lsn: u64,
    ordinal: u64,
    made: &OffsetToken,
    position: SnowflakeResult<(PgLsn, u64)>,
)
    requires
        call_ensures(OffsetToken::parse, (s,), token),
        call_ensures(OffsetToken::decode, (made,), position),
        made.0@ == sequence_text(lsn as nat, ordinal as nat),
    ensures
        token is Ok <==> decoded(s@) is Ok,
        token matches Ok(t) ==> t.0@ == s@,
        token matches Err(e) ==> e is Channel,
        position matches Ok(p) && p.0.0 == lsn && p.1 == ordinal,
{
    law_token_decodes_to_its_position(lsn, ordinal);
}

} // verus!
