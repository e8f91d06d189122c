//! The grammar, as spec functions from a text and a place in it to what is
//! read there and the place behind it.
//!
//! The grammar is an ordered choice: of several alternatives the first that
//! reads something wins, and nothing is tried again behind it. Every
//! function reads at `pos` and gives `None` where its construct does not
//! stand there.

use crate::ast::{AddSubOp, CallModel, ElementModel, ExprModel, MulDivOp, PrimaryModel};
use crate::interpreter::bind;
use crate::pattern::first_match;
use vstd::prelude::*;

verus! {

/// The pattern of an identifier: one character that may start one, and any
/// number that may continue one.
pub open spec fn identifier_pattern() -> Seq<char> {
    r"^\p{XID_Start}\p{XID_Continue}*"@
}

/// A blank within a line.
pub open spec fn is_space(c: char) -> bool {
    c == ' ' || c == '\t'
}

/// A blank or an end of line.
pub open spec fn is_multispace(c: char) -> bool {
    c == ' ' || c == '\t' || c == '\r' || c == '\n'
}

/// What separates the elements of a block.
pub open spec fn is_separator(c: char) -> bool {
    c == ';' || c == '\n'
}

/// The place behind the blanks at `pos`.
pub open spec fn skip_space(s: Seq<char>, pos: int) -> int
    decreases s.len() - pos,
{
    if 0 <= pos < s.len() && is_space(s[pos]) {
        skip_space(s, pos + 1)
    } else {
        pos
    }
}

/// The place behind the blanks and ends of line at `pos`.
pub open spec fn skip_multispace(s: Seq<char>, pos: int) -> int
    decreases s.len() - pos,
{
    if 0 <= pos < s.len() && is_multispace(s[pos]) {
        skip_multispace(s, pos + 1)
    } else {
        pos
    }
}

/// Whether `word` stands at `pos`.
pub open spec fn has_prefix(s: Seq<char>, pos: int, word: Seq<char>) -> bool {
    0 <= pos && pos + word.len() <= s.len() && s.subrange(pos, pos + word.len()) == word
}

/// The identifier at `pos`, where `found` is the text of the leftmost match
/// of the identifier pattern in the text from `pos` on: that match, where
/// it is not empty and begins at `pos`.
pub open spec fn identifier_of(s: Seq<char>, pos: int, found: Option<Seq<char>>) -> Option<
    (Seq<char>, int),
> {
    match found {
        Some(id) => if 0 <= pos && 0 < id.len() <= s.len() - pos && s.subrange(
            pos,
            pos + id.len(),
        ) == id {
            Some((id, pos + id.len()))
        } else {
            None
        },
        None => None,
    }
}

/// The identifier at `pos`: the leftmost match of the identifier pattern in
/// the text from `pos` on, where that match is not empty and begins at
/// `pos`.
pub open spec fn identifier_model(s: Seq<char>, pos: int) -> Option<(Seq<char>, int)> {
    if 0 <= pos <= s.len() {
        match first_match(identifier_pattern(), s.subrange(pos, s.len() as int)) {
            Some(found) => identifier_of(s, pos, found),
            None => None,
        }
    } else {
        None
    }
}

/// The value of a decimal digit.
pub open spec fn digit_model(c: char) -> Option<int> {
    if '0' as u32 <= c as u32 <= '9' as u32 {
        Some(c as u32 - '0' as u32)
    } else {
        None
    }
}

/// The digits from `pos` on, read behind the number `acc`: every digit
/// belongs to the number, and a number beyond 64 bits is none.
pub open spec fn number_tail(s: Seq<char>, pos: int, acc: int) -> Option<(int, int)>
    decreases s.len() - pos,
{
    if 0 <= pos < s.len() && digit_model(s[pos]) is Some {
        let v = acc * 10 + digit_model(s[pos])->0;
        if v > u64::MAX {
            None
        } else {
            number_tail(s, pos + 1, v)
        }
    } else {
        Some((acc, pos))
    }
}

/// The unsigned decimal number at `pos`.
pub open spec fn number_model(s: Seq<char>, pos: int) -> Option<(u64, int)> {
    if 0 <= pos < s.len() && digit_model(s[pos]) is Some {
        match number_tail(s, pos, 0) {
            Some((v, p)) => Some((v as u64, p)),
            None => None,
        }
    } else {
        None
    }
}

/// The place of the first `"` from `pos` on, or the length of the text.
pub open spec fn find_quote(s: Seq<char>, pos: int) -> int
    decreases s.len() - pos,
{
    if 0 <= pos < s.len() && s[pos] != '"' {
        find_quote(s, pos + 1)
    } else {
        pos
    }
}

/// The string literal at `pos`: what stands between two `"`. There is no
/// escape.
pub open spec fn string_model(s: Seq<char>, pos: int) -> Option<(Seq<char>, int)> {
    if 0 <= pos < s.len() && s[pos] == '"' {
        let q = find_quote(s, pos + 1);
        if pos < q < s.len() {
            Some((s.subrange(pos + 1, q), q + 1))
        } else {
            None
        }
    } else {
        None
    }
}

/// The truth value at `pos`. Nothing is asked of what follows the word.
pub open spec fn bool_model(s: Seq<char>, pos: int) -> Option<(bool, int)> {
    if has_prefix(s, pos, "false"@) {
        Some((false, pos + "false"@.len()))
    } else if has_prefix(s, pos, "true"@) {
        Some((true, pos + "true"@.len()))
    } else {
        None
    }
}

/// The segments of a dotted name that follow at `pos`, each behind a `.`,
/// added to `acc`.
pub open spec fn names_rest(s: Seq<char>, pos: int, acc: Seq<Seq<char>>) -> (Seq<Seq<char>>, int)
    decreases s.len() - pos,
{
    if 0 <= pos < s.len() && s[pos] == '.' {
        match identifier_model(s, pos + 1) {
            Some((id, p)) => if pos < p <= s.len() {
                names_rest(s, p, acc.push(id))
            } else {
                (acc, pos)
            },
            None => (acc, pos),
        }
    } else {
        (acc, pos)
    }
}

/// The dotted name at `pos`: identifiers with `.` between them.
pub open spec fn function_name_model(s: Seq<char>, pos: int) -> Option<(Seq<Seq<char>>, int)> {
    match identifier_model(s, pos) {
        Some((id, p)) => Some(names_rest(s, p, seq![id])),
        None => None,
    }
}

pub open spec fn add_op(c: char) -> Option<AddSubOp> {
    if c == '+' {
        Some(AddSubOp::Add)
    } else if c == '-' {
        Some(AddSubOp::Sub)
    } else {
        None
    }
}

pub open spec fn mul_op(c: char) -> Option<MulDivOp> {
    if c == '*' {
        Some(MulDivOp::Mul)
    } else if c == '/' {
        Some(MulDivOp::Div)
    } else {
        None
    }
}

/// The primary expression at `pos`: a truth value, a block, a number, an
/// identifier, a string or a compound, tried in this order.
pub open spec fn primary_expr_model(s: Seq<char>, pos: int) -> Option<(PrimaryModel, int)>
    decreases s.len() - pos, 3int,
{
    if let Some((b, p)) = bool_model(s, pos) {
        Some((PrimaryModel::Bool(b), p))
    } else if let Some((b, p)) = block_model(s, pos) {
        Some((PrimaryModel::Block(b), p))
    } else if let Some((n, p)) = number_model(s, pos) {
        Some((PrimaryModel::DecimalInt(n), p))
    } else if let Some((id, p)) = identifier_model(s, pos) {
        Some((PrimaryModel::Identifier(id), p))
    } else if let Some((t, p)) = string_model(s, pos) {
        Some((PrimaryModel::StringLiteral(t), p))
    } else if let Some((f, p)) = compound_model(s, pos) {
        Some((PrimaryModel::Compound(f), p))
    } else {
        None
    }
}

/// The block at `pos`: elements between `{` and `}`.
pub open spec fn block_model(s: Seq<char>, pos: int) -> Option<(Seq<ElementModel>, int)>
    decreases s.len() - pos, 2int,
{
    if 0 <= pos < s.len() && s[pos] == '{' {
        let (elements, p) = block_inner_model(s, pos + 1);
        if 0 <= p < s.len() && s[p] == '}' {
            Some((elements, p + 1))
        } else {
            None
        }
    } else {
        None
    }
}

/// One field of a compound at `pos`: a name, `=` and an expression, with
/// no blank between them.
pub open spec fn field_model(s: Seq<char>, pos: int) -> Option<((Seq<char>, ExprModel), int)>
    decreases s.len() - pos, 1int,
{
    match identifier_model(s, pos) {
        Some((key, p)) => if pos < p < s.len() && s[p] == '=' {
            match expr_model(s, p + 1) {
                Some((e, q)) => Some(((key, e), q)),
                None => None,
            }
        } else {
            None
        },
        None => None,
    }
}

/// The fields that follow at `pos`, each behind a `,`, set in `acc`. A name
/// that comes again keeps its place and takes the later expression.
pub open spec fn fields_rest(s: Seq<char>, pos: int, acc: Seq<(Seq<char>, ExprModel)>) -> (
    Seq<(Seq<char>, ExprModel)>,
    int,
)
    decreases s.len() - pos, 0int,
{
    if 0 <= pos < s.len() && s[pos] == ',' {
        match field_model(s, pos + 1) {
            Some((f, p)) => if pos < p <= s.len() {
                fields_rest(s, p, bind(acc, f.0, f.1))
            } else {
                (acc, pos)
            },
            None => (acc, pos),
        }
    } else {
        (acc, pos)
    }
}

/// The compound literal at `pos`: fields between `(` and `)`, with `,`
/// between them.
pub open spec fn compound_model(s: Seq<char>, pos: int) -> Option<
    (Seq<(Seq<char>, ExprModel)>, int),
>
    decreases s.len() - pos, 2int,
{
    if 0 <= pos < s.len() && s[pos] == '(' {
        let (fields, p) = match field_model(s, pos + 1) {
            Some((f, q)) => if pos < q <= s.len() {
                fields_rest(s, q, seq![f])
            } else {
                (seq![], pos + 1)
            },
            None => (seq![], pos + 1),
        };
        if 0 <= p < s.len() && s[p] == ')' {
            Some((fields, p + 1))
        } else {
            None
        }
    } else {
        None
    }
}

/// The factors that follow at `pos`, each behind `*` or `/`, folded to the
/// left into `acc`. `any` tells whether `acc` holds an operator already.
/// Blanks may follow an operator and a factor.
pub open spec fn mul_tail(s: Seq<char>, pos: int, acc: ExprModel, any: bool) -> (
    ExprModel,
    int,
    bool,
)
    decreases s.len() - pos, 0int,
{
    if 0 <= pos < s.len() && mul_op(s[pos]) is Some {
        let pos1 = skip_space(s, pos + 1);
        if pos < pos1 <= s.len() {
            match primary_expr_model(s, pos1) {
                Some((t, pos2)) => {
                    let pos3 = skip_space(s, pos2);
                    if pos < pos3 <= s.len() {
                        mul_tail(
                            s,
                            pos3,
                            ExprModel::MulDiv {
                                left: Box::new(acc),
                                op: mul_op(s[pos])->0,
                                right: Box::new(ExprModel::Primary(t)),
                            },
                            true,
                        )
                    } else {
                        (acc, pos, any)
                    }
                },
                None => (acc, pos, any),
            }
        } else {
            (acc, pos, any)
        }
    } else {
        (acc, pos, any)
    }
}

/// A product at `pos`: a primary expression, and the factors behind it.
/// With no factor it is the primary expression alone, and the blanks
/// behind that are not read.
pub open spec fn mul_level_model(s: Seq<char>, pos: int) -> Option<(ExprModel, int)>
    decreases s.len() - pos, 4int,
{
    match primary_expr_model(s, pos) {
        Some((first, p)) => {
            let pos1 = skip_space(s, p);
            if pos < pos1 <= s.len() {
                let (e, end, any) = mul_tail(s, pos1, ExprModel::Primary(first), false);
                if any {
                    Some((e, end))
                } else {
                    Some((ExprModel::Primary(first), p))
                }
            } else {
                Some((ExprModel::Primary(first), p))
            }
        },
        None => None,
    }
}

/// The terms that follow at `pos`, each behind `+` or `-`, folded to the
/// left into `acc`.
pub open spec fn add_tail(s: Seq<char>, pos: int, acc: ExprModel, any: bool) -> (
    ExprModel,
    int,
    bool,
)
    decreases s.len() - pos, 0int,
{
    if 0 <= pos < s.len() && add_op(s[pos]) is Some {
        let pos1 = skip_space(s, pos + 1);
        if pos < pos1 <= s.len() {
            match mul_level_model(s, pos1) {
                Some((t, pos2)) => {
                    let pos3 = skip_space(s, pos2);
                    if pos < pos3 <= s.len() {
                        add_tail(
                            s,
                            pos3,
                            ExprModel::AddSub {
                                left: Box::new(acc),
                                op: add_op(s[pos])->0,
                                right: Box::new(t),
                            },
                            true,
                        )
                    } else {
                        (acc, pos, any)
                    }
                },
                None => (acc, pos, any),
            }
        } else {
            (acc, pos, any)
        }
    } else {
        (acc, pos, any)
    }
}

/// A sum at `pos`: a product, and the terms behind it. With no term it is
/// the product alone.
pub open spec fn add_level_model(s: Seq<char>, pos: int) -> Option<(ExprModel, int)>
    decreases s.len() - pos, 5int,
{
    match mul_level_model(s, pos) {
        Some((first, p)) => {
            let pos1 = skip_space(s, p);
            if pos < pos1 <= s.len() {
                let (e, end, any) = add_tail(s, pos1, first, false);
                if any {
                    Some((e, end))
                } else {
                    Some((first, p))
                }
            } else {
                Some((first, p))
            }
        },
        None => None,
    }
}

/// The arguments that follow at `pos`, each behind at least one blank,
/// added to `acc`.
pub open spec fn args_rest(s: Seq<char>, pos: int, acc: Seq<PrimaryModel>) -> (
    Seq<PrimaryModel>,
    int,
)
    decreases s.len() - pos, 0int,
{
    let p = skip_space(s, pos);
    if pos < p <= s.len() {
        match primary_expr_model(s, p) {
            Some((a, q)) => if p < q <= s.len() {
                args_rest(s, q, acc.push(a))
            } else {
                (acc, pos)
            },
            None => (acc, pos),
        }
    } else {
        (acc, pos)
    }
}

/// The function application at `pos`: blanks, a dotted name, blanks, and
/// primary expressions with blanks between them.
pub open spec fn function_application_model(s: Seq<char>, pos: int) -> Option<(CallModel, int)>
    decreases s.len() - pos, 6int,
{
    let pos0 = skip_space(s, pos);
    match function_name_model(s, pos0) {
        Some((fident, pos1)) => {
            let pos2 = skip_space(s, pos1);
            if pos < pos2 <= s.len() {
                let (args, end) = match primary_expr_model(s, pos2) {
                    Some((a, q)) => if pos2 < q <= s.len() {
                        args_rest(s, q, seq![a])
                    } else {
                        (seq![], pos2)
                    },
                    None => (seq![], pos2),
                };
                Some((CallModel { fident, options: seq![], args }, end))
            } else {
                None
            }
        },
        None => None,
    }
}

/// The conditional at `pos`: `if`, a condition, `then`, a block, `else`, a
/// block, with blanks between them as one likes.
pub open spec fn if_model(s: Seq<char>, pos: int) -> Option<(ExprModel, int)>
    decreases s.len() - pos, 6int,
{
    if has_prefix(s, pos, "if"@) {
        let pos1 = skip_space(s, pos + "if"@.len());
        if pos < pos1 <= s.len() {
            match expr_model(s, pos1) {
                Some((cond, pos2)) => {
                    let pos3 = skip_space(s, pos2);
                    if has_prefix(s, pos3, "then"@) {
                        let pos4 = skip_space(s, pos3 + "then"@.len());
                        if pos < pos4 <= s.len() {
                            match block_model(s, pos4) {
                                Some((yes, pos5)) => {
                                    let pos6 = skip_space(s, pos5);
                                    if has_prefix(s, pos6, "else"@) {
                                        let pos7 = skip_space(s, pos6 + "else"@.len());
                                        if pos < pos7 <= s.len() {
                                            match block_model(s, pos7) {
                                                Some((no, pos8)) => Some(
                                                    (
                                                        ExprModel::If {
                                                            cond: Box::new(cond),
                                                            true_exp: Box::new(
                                                                ExprModel::Primary(
                                                                    PrimaryModel::Block(yes),
                                                                ),
                                                            ),
                                                            false_expr: Box::new(
                                                                ExprModel::Primary(
                                                                    PrimaryModel::Block(no),
                                                                ),
                                                            ),
                                                        },
                                                        pos8,
                                                    ),
                                                ),
                                                None => None,
                                            }
                                        } else {
                                            None
                                        }
                                    } else {
                                        None
                                    }
                                },
                                None => None,
                            }
                        } else {
                            None
                        }
                    } else {
                        None
                    }
                },
                None => None,
            }
        } else {
            None
        }
    } else {
        None
    }
}

/// The expression at `pos`: a conditional, a function application, or a
/// sum, tried in this order. A text that begins with a name is therefore a
/// function application.
pub open spec fn expr_model(s: Seq<char>, pos: int) -> Option<(ExprModel, int)>
    decreases s.len() - pos, 7int,
{
    if let Some(r) = if_model(s, pos) {
        Some(r)
    } else if let Some((c, p)) = function_application_model(s, pos) {
        Some((ExprModel::Call(c), p))
    } else {
        add_level_model(s, pos)
    }
}

/// A keyword, a name, `=` and the place behind it, with blanks between
/// them as one likes: what `let` and `using` begin with.
pub open spec fn binding_head(s: Seq<char>, pos: int, keyword: Seq<char>) -> Option<
    (Seq<char>, int),
> {
    if has_prefix(s, pos, keyword) {
        match identifier_model(s, skip_space(s, pos + keyword.len())) {
            Some((name, pos1)) => {
                let pos2 = skip_space(s, pos1);
                if 0 <= pos2 < s.len() && s[pos2] == '=' {
                    Some((name, skip_space(s, pos2 + 1)))
                } else {
                    None
                }
            },
            None => None,
        }
    } else {
        None
    }
}

/// The `let` binding at `pos`.
pub open spec fn var_model(s: Seq<char>, pos: int) -> Option<(ElementModel, int)>
    decreases s.len() - pos, 7int,
{
    match binding_head(s, pos, "let"@) {
        Some((name, p)) => if pos < p <= s.len() {
            match expr_model(s, p) {
                Some((def, q)) => Some((ElementModel::Var { name, def }, q)),
                None => None,
            }
        } else {
            None
        },
        None => None,
    }
}

/// The `using` binding at `pos`.
pub open spec fn using_model_at(s: Seq<char>, pos: int) -> Option<(ElementModel, int)>
    decreases s.len() - pos, 7int,
{
    match binding_head(s, pos, "using"@) {
        Some((name, p)) => if pos < p <= s.len() {
            match function_application_model(s, p) {
                Some((def, q)) => Some((ElementModel::Using { name, def }, q)),
                None => None,
            }
        } else {
            None
        },
        None => None,
    }
}

/// The element of a block at `pos`: a `let` binding, a `using` binding, or
/// an expression, tried in this order.
pub open spec fn block_element_model(s: Seq<char>, pos: int) -> Option<(ElementModel, int)>
    decreases s.len() - pos, 8int,
{
    if let Some(r) = var_model(s, pos) {
        Some(r)
    } else if let Some(r) = using_model_at(s, pos) {
        Some(r)
    } else {
        match expr_model(s, pos) {
            Some((e, p)) => Some((ElementModel::Expr(e), p)),
            None => None,
        }
    }
}

/// The elements that follow at `pos`, each behind a `;` or an end of line,
/// added to `acc`.
pub open spec fn block_rest(s: Seq<char>, pos: int, acc: Seq<ElementModel>) -> (
    Seq<ElementModel>,
    int,
)
    decreases s.len() - pos, 0int,
{
    if 0 <= pos < s.len() && is_separator(s[pos]) {
        match block_element_model(s, pos + 1) {
            Some((e, p)) => if pos < p <= s.len() {
                block_rest(s, p, acc.push(e))
            } else {
                (acc, pos)
            },
            None => (acc, pos),
        }
    } else {
        (acc, pos)
    }
}

/// The elements of a block from `pos` on. There may be none.
pub open spec fn block_inner_model(s: Seq<char>, pos: int) -> (Seq<ElementModel>, int)
    decreases s.len() - pos, 9int,
{
    if 0 <= pos <= s.len() {
        match block_element_model(s, pos) {
            Some((e, p)) => if pos < p <= s.len() {
                block_rest(s, p, seq![e])
            } else {
                (seq![], pos)
            },
            None => (seq![], pos),
        }
    } else {
        (seq![], pos)
    }
}

/// One line of an interactive session: an element that is the whole text.
pub open spec fn line_model(s: Seq<char>) -> Option<ElementModel> {
    match block_element_model(s, 0) {
        Some((e, p)) => if p == s.len() {
            Some(e)
        } else {
            None
        },
        None => None,
    }
}

/// The place up to which a line was read.
pub open spec fn line_end(s: Seq<char>) -> int {
    match block_element_model(s, 0) {
        Some((e, p)) => p,
        None => 0,
    }
}

/// The place up to which a file was read: behind its elements and the
/// blanks and ends of line that follow them.
pub open spec fn file_end(s: Seq<char>) -> int {
    skip_multispace(s, block_inner_model(s, 0).1)
}

/// A whole file: elements, then blanks and ends of line, then nothing.
pub open spec fn file_model(s: Seq<char>) -> Option<Seq<ElementModel>> {
    if file_end(s) == s.len() {
        Some(block_inner_model(s, 0).0)
    } else {
        None
    }
}

} // verus!
