use vstd::prelude::*;
use crate::token::{Token, TokenType};

verus! {

/// The character of a decimal digit.
pub open spec fn digit_char(d: nat) -> char {
    if d == 0 { '0' }
    else if d == 1 { '1' }
    else if d == 2 { '2' }
    else if d == 3 { '3' }
    else if d == 4 { '4' }
    else if d == 5 { '5' }
    else if d == 6 { '6' }
    else if d == 7 { '7' }
    else if d == 8 { '8' }
    else { '9' }
}

/// The decimal representation of `n`, without leading zeros.
pub open spec fn decimal(n: nat) -> Seq<char>
    decreases n,
{
    if n < 10 {
        seq![digit_char(n)]
    } else {
        decimal(n / 10) + seq![digit_char(n % 10)]
    }
}

/// The text of a report: `[line <line>] Error<place>: <message>`.
pub open spec fn report_text(line: u64, place: Seq<char>, message: Seq<char>) -> Seq<char> {
    "[line "@ + decimal(line as nat) + "] Error"@ + place + ": "@ + message
}

fn digit_text(d: u64) -> (r: &'static str)
    requires
        d < 10,
    ensures
        r@ == seq![digit_char(d as nat)],
{
    proof {
        reveal_strlit("0");
        reveal_strlit("1");
        reveal_strlit("2");
        reveal_strlit("3");
        reveal_strlit("4");
        reveal_strlit("5");
        reveal_strlit("6");
        reveal_strlit("7");
        reveal_strlit("8");
        reveal_strlit("9");
    }
    if d == 0 { "0" }
    else if d == 1 { "1" }
    else if d == 2 { "2" }
    else if d == 3 { "3" }
    else if d == 4 { "4" }
    else if d == 5 { "5" }
    else if d == 6 { "6" }
    else if d == 7 { "7" }
    else if d == 8 { "8" }
    else { "9" }
}

/// The decimal text of `n`.
pub fn decimal_text(n: u64) -> (r: String)
    ensures
        r@ == decimal(n as nat),
    decreases n,
{
    if n < 10 {
        String::from_str(digit_text(n))
    } else {
        let mut s = decimal_text(n / 10);
        s.append(digit_text(n % 10));
        s
    }
}

fn report(line: u64, place: &str, message: &str) -> (r: String)
    ensures
        r@ == report_text(line, place@, message@),
{
    let mut s = String::from_str("[line ");
    let digits = decimal_text(line);
    s.append(digits.as_str());
    s.append("] Error");
    s.append(place);
    s.append(": ");
    s.append(message);
    proof {
        assert(s@ =~= report_text(line, place@, message@));
    }
    s
}

/// The report of an error found at `line`, with no token to point at.
pub fn error(line: u64, message: &str) -> (r: String)
    ensures
        r@ == report_text(line, Seq::empty(), message@),
{
    proof {
        reveal_strlit("");
    }
    report(line, "", message)
}

/// Where in the source a token stands, as a report names it.
pub open spec fn token_place(token: Token) -> Seq<char> {
    if token.token_type == TokenType::EOF {
        " at end"@
    } else {
        " at '"@ + token.lexeme@ + "'"@
    }
}

/// The report of an error found at `token`.
pub fn parse_error(token: &Token, message: &str) -> (r: String)
    ensures
        r@ == report_text(token.line, token_place(*token), message@),
{
    match token.token_type {
        TokenType::EOF => report(token.line, " at end", message),
        _ => {
            let mut place = String::from_str(" at '");
            place.append(token.lexeme.as_str());
            place.append("'");
            report(token.line, place.as_str(), message)
        },
    }
}

} // verus!
