//! The tokenizer: one formula's text becomes a sequence of tokens, each
//! carrying its byte span in the source.

use vstd::prelude::*;
use crate::strutil::{all_digits, chars_string, is_ascii_digit, spec_trim, str_chars, trim_chars};
use crate::table::formula::types::Span;

verus! {

/// A token: its text and where it sits in the source expression.
#[derive(Debug, Clone, PartialEq)]
pub struct Token {
    pub value: String,
    pub span: Span,
}

/// The mathematical model of a [`Token`].
pub ghost struct SpecTok {
    pub val: Seq<char>,
    pub start: nat,
    pub end: nat,
}

impl View for Token {
    type V = SpecTok;

    open spec fn view(&self) -> SpecTok {
        SpecTok { val: self.value@, start: self.span.start as nat, end: self.span.end as nat }
    }
}

impl Token {
    pub fn new(value: String, span: Span) -> (r: Token)
        ensures
            r == (Token { value, span }),
    {
        Token { value, span }
    }
}

pub open spec fn tok_views(s: Seq<Token>) -> Seq<SpecTok> {
    s.map_values(|t: Token| t@)
}

/// Is `c` one of the single-character operator tokens?
pub open spec fn is_op_char(c: char) -> bool {
    c == '+' || c == '-' || c == '*' || c == '/' || c == '^' || c == '@' || c == '(' || c == ')'
        || c == ':'
}

/// The pending text, trimmed, as a token ending at `end` — or nothing when
/// only whitespace accumulated.
pub open spec fn spec_flush(cur: Seq<char>, ts: nat, end: nat) -> Seq<SpecTok> {
    if spec_trim(cur).len() == 0 {
        Seq::empty()
    } else {
        seq![SpecTok { val: spec_trim(cur), start: ts, end: end }]
    }
}

/// Is the dot at position `i` a decimal point?  It is when the pending text
/// is a pure digit run and a digit follows.
pub open spec fn is_decimal_point(cur: Seq<char>, s: Seq<char>, i: nat) -> bool {
    cur.len() > 0 && all_digits(cur) && i + 1 < s.len() && is_ascii_digit(s[i as int + 1])
}

/// The tokens produced from position `i` on, given the pending text `cur`
/// that started at `ts`.
pub open spec fn spec_tokenize_from(s: Seq<char>, i: nat, ts: nat, cur: Seq<char>) -> Seq<SpecTok>
    decreases s.len() - i,
{
    if i >= s.len() {
        spec_flush(cur, ts, s.len())
    } else {
        let c = s[i as int];
        if is_op_char(c) {
            spec_flush(cur, ts, i) + seq![SpecTok { val: seq![c], start: i, end: i + 1 }]
                + spec_tokenize_from(s, i + 1, i + 1, Seq::empty())
        } else if c == '.' {
            if is_decimal_point(cur, s, i) {
                spec_tokenize_from(s, i + 1, ts, cur.push('.'))
            } else {
                spec_flush(cur, ts, i) + seq![SpecTok { val: seq!['.'], start: i, end: i + 1 }]
                    + spec_tokenize_from(s, i + 1, i + 1, Seq::empty())
            }
        } else if c == ' ' {
            spec_flush(cur, ts, i) + spec_tokenize_from(s, i + 1, i + 1, Seq::empty())
        } else {
            spec_tokenize_from(
                s,
                i + 1,
                if cur.len() == 0 {
                    i
                } else {
                    ts
                },
                cur.push(c),
            )
        }
    }
}

/// The token sequence of one formula text.
pub open spec fn spec_tokenize(s: Seq<char>) -> Seq<SpecTok> {
    spec_tokenize_from(s, 0, 0, Seq::empty())
}

fn is_op_char_exec(c: char) -> (r: bool)
    ensures
        r == is_op_char(c),
{
    c == '+' || c == '-' || c == '*' || c == '/' || c == '^' || c == '@' || c == '(' || c == ')'
        || c == ':'
}

/// Appends the pending token, trimmed, if anything but whitespace
/// accumulated.
fn flush_token(out: &mut Vec<Token>, cur: &Vec<char>, ts: usize, end: usize)
    ensures
        tok_views(final(out)@) == tok_views(old(out)@) + spec_flush(
            cur@,
            ts as nat,
            end as nat,
        ),
{
    let trimmed = trim_chars(cur);
    if trimmed.len() > 0 {
        let ghost before = out@;
        out.push(Token { value: chars_string(&trimmed), span: Span { start: ts, end } });
        proof {
            assert(tok_views(out@) =~= tok_views(before) + spec_flush(
                cur@,
                ts as nat,
                end as nat,
            ));
        }
    } else {
        proof {
            assert(tok_views(out@) =~= tok_views(out@) + spec_flush(cur@, ts as nat, end as nat));
        }
    }
}

/// Splits an expression into operator, number and identifier tokens, each
/// with its exact source span; whitespace only separates.
pub fn tokenize_expression(expr: &str) -> (r: Vec<Token>)
    ensures
        tok_views(r@) == spec_tokenize(expr@),
{
    let chars = str_chars(expr);
    let ghost s = expr@;
    let mut out: Vec<Token> = Vec::new();
    let mut cur: Vec<char> = Vec::new();
    let mut ts: usize = 0;
    let mut i: usize = 0;
    proof {
        assert(tok_views(out@) + spec_tokenize_from(s, 0, 0, Seq::empty()) =~= spec_tokenize(s));
        assert(cur@ =~= Seq::<char>::empty());
    }
    while i < chars.len()
        invariant
            chars@ == s,
            0 <= i <= s.len(),
            ts <= i,
            spec_tokenize(s) == tok_views(out@) + spec_tokenize_from(
                s,
                i as nat,
                ts as nat,
                cur@,
            ),
        decreases s.len() - i,
    {
        let c = chars[i];
        if is_op_char_exec(c) {
            flush_token(&mut out, &cur, ts, i);
            let ghost mid = out@;
            let mut one: Vec<char> = Vec::new();
            one.push(c);
            out.push(Token { value: chars_string(&one), span: Span { start: i, end: i + 1 } });
            cur = Vec::new();
            ts = i + 1;
            proof {
                assert(one@ =~= seq![c]);
                assert(tok_views(out@) =~= tok_views(mid) + seq![SpecTok {
                    val: seq![c],
                    start: i as nat,
                    end: i as nat + 1,
                }]);
                assert(cur@ =~= Seq::<char>::empty());
                assert(tok_views(out@) + spec_tokenize_from(
                    s,
                    i as nat + 1,
                    i as nat + 1,
                    Seq::empty(),
                ) =~= spec_tokenize(s));
            }
        } else if c == '.' {
            let is_dec = cur.len() > 0 && all_digits_exec(&cur) && i + 1 < chars.len() && {
                let n = chars[i + 1];
                '0' <= n && n <= '9'
            };
            proof {
                assert(is_dec == is_decimal_point(cur@, s, i as nat));
            }
            if is_dec {
                cur.push('.');
            } else {
                flush_token(&mut out, &cur, ts, i);
                let ghost mid = out@;
                let mut one: Vec<char> = Vec::new();
                one.push('.');
                out.push(
                    Token { value: chars_string(&one), span: Span { start: i, end: i + 1 } },
                );
                cur = Vec::new();
                ts = i + 1;
                proof {
                    assert(one@ =~= seq!['.']);
                    assert(tok_views(out@) =~= tok_views(mid) + seq![SpecTok {
                        val: seq!['.'],
                        start: i as nat,
                        end: i as nat + 1,
                    }]);
                    assert(cur@ =~= Seq::<char>::empty());
                    assert(tok_views(out@) + spec_tokenize_from(
                        s,
                        i as nat + 1,
                        i as nat + 1,
                        Seq::empty(),
                    ) =~= spec_tokenize(s));
                }
            }
        } else if c == ' ' {
            flush_token(&mut out, &cur, ts, i);
            cur = Vec::new();
            ts = i + 1;
            proof {
                assert(cur@ =~= Seq::<char>::empty());
                assert(tok_views(out@) + spec_tokenize_from(
                    s,
                    i as nat + 1,
                    i as nat + 1,
                    Seq::empty(),
                ) =~= spec_tokenize(s));
            }
        } else {
            if cur.len() == 0 {
                ts = i;
            }
            cur.push(c);
        }
        i = i + 1;
    }
    flush_token(&mut out, &cur, ts, chars.len());
    proof {
        assert(tok_views(out@) =~= spec_tokenize(s));
    }
    out
}

/// Are all characters ASCII digits?
pub fn all_digits_exec(v: &Vec<char>) -> (r: bool)
    ensures
        r == all_digits(v@),
{
    let mut i: usize = 0;
    while i < v.len()
        invariant
            0 <= i <= v@.len(),
            forall|j: int| 0 <= j < i ==> is_ascii_digit(#[trigger] v@[j]),
        decreases v@.len() - i,
    {
        let c = v[i];
        if !('0' <= c && c <= '9') {
            proof {
                assert(!is_ascii_digit(v@[i as int]));
            }
            return false;
        }
        i = i + 1;
    }
    true
}

} // verus!
