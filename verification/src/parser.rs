//! The parser: a recursive descent over the characters of the text, proved
//! to read what the grammar says.

use crate::ast::{
    names_model, AddSubOp, BinOp, Block, BlockElement, BoolLiteral, ElementModel, Expr, ExprModel,
    FunctionApplication, Identifier, If, MulDivOp, PrimaryExpr, PrimaryModel,
};
use crate::grammar::{
    add_level_model, add_tail, args_rest, binding_head, block_element_model, block_inner_model,
    block_model, block_rest, bool_model, compound_model, digit_model, expr_model, field_model,
    fields_rest, file_end, file_model, find_quote, function_application_model, function_name_model,
    has_prefix, identifier_model, identifier_of, identifier_pattern, if_model, line_end, line_model,
    mul_level_model, mul_tail, names_rest, number_model, number_tail, primary_expr_model,
    skip_multispace, skip_space, string_model, using_model_at, var_model,
};
use crate::interpreter::{bind, lemma_first_index, BinaryOperator};
use crate::machine::{elements_model, fields_model, primaries_model};
use crate::pattern::find;
use vstd::prelude::*;
use vstd::std_specs::iter::IteratorSpec;
use vstd::string::StrSliceExecFns;

verus! {

/// A text that is being read, with its characters at hand.
pub struct Source<'a> {
    text: &'a str,
    chars: Vec<char>,
}

impl<'a> View for Source<'a> {
    type V = Seq<char>;

    closed spec fn view(&self) -> Seq<char> {
        self.text@
    }
}

/// The pattern of an identifier.
fn pattern() -> (r: &'static str)
    ensures
        r@ == identifier_pattern(),
{
    r"^\p{XID_Start}\p{XID_Continue}*"
}

impl<'a> Source<'a> {
    /// The characters at hand are those of the text.
    #[verifier::type_invariant]
    spec fn wf(&self) -> bool {
        self.chars@ == self.text@
    }

    /// Takes a text to read.
    pub fn new(text: &'a str) -> (r: Source<'a>)
        ensures
            r@ == text@,
    {
        let mut chars: Vec<char> = Vec::new();
        let mut it = text.chars();
        loop
            invariant
                chars@ + it.remaining() == text@,
                it.decrease() is Some,
            ensures
                chars@ == text@,
            decreases it.decrease()->0,
        {
            let ghost before = it.remaining();
            match it.next() {
                Some(c) => {
                    let ghost sofar = chars@;
                    chars.push(c);
                    assert(chars@ + it.remaining() =~= sofar + before);
                },
                None => {
                    assert(chars@ + it.remaining() =~= chars@);
                    break ;
                },
            }
        }
        Source { text, chars }
    }

    /// The number of characters.
    pub fn len(&self) -> (n: usize)
        ensures
            n == self@.len(),
    {
        proof {
            use_type_invariant(self);
        }
        self.chars.len()
    }

    /// The text from `from` up to `to`.
    pub fn slice(&self, from: usize, to: usize) -> (r: &'a str)
        requires
            from <= to <= self@.len(),
        ensures
            r@ == self@.subrange(from as int, to as int),
    {
        self.text.substring_char(from, to)
    }

    /// The place behind the blanks at `pos`.
    pub fn skip_space(&self, pos: usize) -> (p: usize)
        ensures
            p == skip_space(self@, pos as int),
            pos <= p,
            pos <= self@.len() ==> p <= self@.len(),
    {
        proof {
            use_type_invariant(self);
        }
        if pos > self.chars.len() {
            return pos;
        }
        let mut p = pos;
        while p < self.chars.len() && (self.chars[p] == ' ' || self.chars[p] == '\t')
            invariant
                self.wf(),
                pos <= p <= self@.len(),
                skip_space(self@, p as int) == skip_space(self@, pos as int),
            decreases self@.len() - p,
        {
            p += 1;
        }
        p
    }

    /// The place behind the blanks and ends of line at `pos`.
    pub fn skip_multispace(&self, pos: usize) -> (p: usize)
        ensures
            p == skip_multispace(self@, pos as int),
            pos <= p,
            pos <= self@.len() ==> p <= self@.len(),
    {
        proof {
            use_type_invariant(self);
        }
        if pos > self.chars.len() {
            return pos;
        }
        let mut p = pos;
        while p < self.chars.len() && (self.chars[p] == ' ' || self.chars[p] == '\t'
            || self.chars[p] == '\r' || self.chars[p] == '\n')
            invariant
                self.wf(),
                pos <= p <= self@.len(),
                skip_multispace(self@, p as int) == skip_multispace(self@, pos as int),
            decreases self@.len() - p,
        {
            p += 1;
        }
        p
    }

    /// Whether the character `c` stands at `pos`.
    pub fn at(&self, pos: usize, c: char) -> (r: bool)
        ensures
            r == (pos < self@.len() && self@[pos as int] == c),
            self@.len() <= usize::MAX,
    {
        proof {
            use_type_invariant(self);
        }
        pos < self.chars.len() && self.chars[pos] == c
    }

    /// The place behind `word`, where `word` stands at `pos`.
    pub fn tag(&self, pos: usize, word: &str) -> (r: Option<usize>)
        ensures
            match r {
                Some(p) => has_prefix(self@, pos as int, word@) && p == pos + word@.len() && p
                    <= self@.len(),
                None => !has_prefix(self@, pos as int, word@),
            },
    {
        proof {
            use_type_invariant(self);
        }
        if pos > self.chars.len() {
            return None;
        }
        let n = word.unicode_len();
        if n > self.chars.len() - pos {
            return None;
        }
        let mut i: usize = 0;
        while i < n
            invariant
                self.wf(),
                i <= n,
                n == word@.len(),
                pos + n <= self.chars.len(),
                forall|j: int| 0 <= j < i ==> self@[pos + j] == word@[j],
            decreases n - i,
        {
            if self.chars[pos + i] != word.get_char(i) {
                assert(self@.subrange(pos as int, pos + n)[i as int] != word@[i as int]);
                return None;
            }
            i += 1;
        }
        assert(self@.subrange(pos as int, pos + n) =~= word@);
        Some(pos + n)
    }

    /// The identifier at `pos`, where `found` is the text of the leftmost
    /// match of the identifier pattern in the text from `pos` on.
    pub fn identifier_from(&self, pos: usize, found: Option<String>) -> (r: Option<
        (String, usize),
    >)
        ensures
            match r {
                Some((id, p)) => identifier_of(
                    self@,
                    pos as int,
                    match found {
                        Some(f) => Some(f@),
                        None => None,
                    },
                ) == Some((id@, p as int)) && pos < p <= self@.len(),
                None => identifier_of(
                    self@,
                    pos as int,
                    match found {
                        Some(f) => Some(f@),
                        None => None,
                    },
                ) is None,
            },
    {
        proof {
            use_type_invariant(self);
        }
        if pos > self.chars.len() {
            return None;
        }
        let len = self.chars.len();
        match found {
            Some(id) => {
                let n = id.as_str().unicode_len();
                if 0 < n && n <= len - pos {
                    let here = self.slice(pos, pos + n).to_owned();
                    if here == id {
                        Some((id, pos + n))
                    } else {
                        None
                    }
                } else {
                    None
                }
            },
            None => None,
        }
    }

    /// The identifier at `pos`.
    pub fn identifier(&self, pos: usize) -> (r: Option<(String, usize)>)
        ensures
            match r {
                Some((id, p)) => identifier_model(self@, pos as int) == Some((id@, p as int))
                    && pos < p <= self@.len(),
                None => identifier_model(self@, pos as int) is None,
            },
    {
        proof {
            use_type_invariant(self);
        }
        if pos > self.chars.len() {
            return None;
        }
        let rest = self.slice(pos, self.chars.len());
        match find(pattern(), rest) {
            Ok(found) => self.identifier_from(pos, found),
            Err(_) => None,
        }
    }

    /// The unsigned decimal number at `pos`.
    pub fn number(&self, pos: usize) -> (r: Option<(u64, usize)>)
        ensures
            match r {
                Some((n, p)) => number_model(self@, pos as int) == Some((n, p as int)) && pos < p
                    <= self@.len(),
                None => number_model(self@, pos as int) is None,
            },
    {
        proof {
            use_type_invariant(self);
        }
        let len = self.chars.len();
        if pos >= len || !is_digit(self.chars[pos]) {
            return None;
        }
        let mut value: u64 = 0;
        let mut p = pos;
        while p < len && is_digit(self.chars[p])
            invariant
                self.wf(),
                len == self@.len(),
                pos <= p <= len,
                p == pos ==> pos < len && digit_model(self@[pos as int]) is Some,
                number_tail(self@, p as int, value as int) == number_tail(self@, pos as int, 0),
            decreases len - p,
        {
            let d = digit(self.chars[p]);
            let next = match value.checked_mul(10) {
                Some(v) => v.checked_add(d),
                None => None,
            };
            match next {
                Some(v) => {
                    value = v;
                },
                None => {
                    return None;
                },
            }
            p += 1;
        }
        Some((value, p))
    }

    /// The string literal at `pos`.
    pub fn pstring(&self, pos: usize) -> (r: Option<(String, usize)>)
        ensures
            match r {
                Some((t, p)) => string_model(self@, pos as int) == Some((t@, p as int)) && pos < p
                    <= self@.len(),
                None => string_model(self@, pos as int) is None,
            },
    {
        proof {
            use_type_invariant(self);
        }
        if !self.at(pos, '"') {
            return None;
        }
        let len = self.chars.len();
        let mut q = pos + 1;
        while q < len && self.chars[q] != '"'
            invariant
                self.wf(),
                len == self@.len(),
                pos < q <= len,
                find_quote(self@, q as int) == find_quote(self@, pos + 1),
            decreases len - q,
        {
            q += 1;
        }
        if q < len {
            Some((self.slice(pos + 1, q).to_owned(), q + 1))
        } else {
            None
        }
    }

    /// The truth value at `pos`.
    pub fn pbool(&self, pos: usize) -> (r: Option<(BoolLiteral, usize)>)
        ensures
            match r {
                Some((b, p)) => bool_model(self@, pos as int) == Some(
                    (b == BoolLiteral::True, p as int),
                ) && pos <= p <= self@.len(),
                None => bool_model(self@, pos as int) is None,
            },
    {
        match self.tag(pos, "false") {
            Some(p) => Some((BoolLiteral::False, p)),
            None => match self.tag(pos, "true") {
                Some(p) => Some((BoolLiteral::True, p)),
                None => None,
            },
        }
    }

    /// The dotted name at `pos`, as its segments.
    pub fn function_name(&self, pos: usize) -> (r: Option<(Vec<String>, usize)>)
        ensures
            match r {
                Some((names, p)) => function_name_model(self@, pos as int) == Some(
                    (names_model(names@), p as int),
                ) && pos < p <= self@.len() && names.len() > 0,
                None => function_name_model(self@, pos as int) is None,
            },
    {
        proof {
            use_type_invariant(self);
        }
        let (first, start) = match self.identifier(pos) {
            Some(r) => r,
            None => {
                return None;
            },
        };
        let mut names: Vec<String> = Vec::new();
        names.push(first);
        assert(names_model(names@) =~= seq![first@]);
        let mut p = start;
        let len = self.chars.len();
        loop
            invariant
                self.wf(),
                len == self@.len(),
                pos < p <= len,
                names.len() > 0,
                names_rest(self@, p as int, names_model(names@)) == names_rest(
                    self@,
                    start as int,
                    seq![first@],
                ),
            ensures
                names_rest(self@, start as int, seq![first@]) == (names_model(names@), p as int),
            decreases len - p,
        {
            if !self.at(p, '.') {
                break ;
            }
            match self.identifier(p + 1) {
                Some((id, q)) => {
                    let ghost before = names_model(names@);
                    names.push(id);
                    assert(names_model(names@) =~= before.push(id@));
                    p = q;
                },
                None => {
                    break ;
                },
            }
        }
        Some((names, p))
    }
}

/// Whether `c` is a decimal digit.
fn is_digit(c: char) -> (r: bool)
    ensures
        r == digit_model(c) is Some,
{
    '0' as u32 <= c as u32 && c as u32 <= '9' as u32
}

/// The value of a decimal digit.
fn digit(c: char) -> (d: u64)
    requires
        digit_model(c) is Some,
    ensures
        d == digit_model(c)->0,
        d <= 9,
{
    (c as u32 - '0' as u32) as u64
}

/// What could not be read.
#[derive(Debug, PartialEq, Eq)]
pub struct ParseError {
    /// The text from the place at which the reading stopped.
    pub rest: String,
}

/// The node of two operands and their operator.
pub fn binop<Op: BinaryOperator>(left: Expr, op: Op, right: Expr) -> (e: Expr)
    ensures
        e@ == Op::node(left@, op, right@),
{
    Op::into_expr(BinOp { left: Box::new(left), op, right: Box::new(right) })
}

/// Sets a field of a compound literal: a field of that name takes the new
/// expression where it stands, a new field goes to the end.
fn put_field(fields: &mut Vec<(String, Expr)>, key: String, e: Expr)
    ensures
        fields_model(final(fields)@) == bind(fields_model(old(fields)@), key@, e@),
{
    let ghost before = fields_model(fields@);
    let mut i: usize = 0;
    while i < fields.len() && !(fields[i].0 == key)
        invariant
            i <= fields.len(),
            before == fields_model(fields@),
            forall|j: int| 0 <= j < i ==> before[j].0 != key@,
        decreases fields.len() - i,
    {
        i += 1;
    }
    proof {
        lemma_first_index(before, key@, i as int);
    }
    if i < fields.len() {
        fields.set(i, (key, e));
    } else {
        fields.push((key, e));
    }
    assert(fields_model(fields@) =~= bind(before, key@, e@));
}

/// The dotted name with the given segments, outermost first.
fn dotted(names: Vec<String>) -> (id: Identifier)
    requires
        names.len() > 0,
    ensures
        id@ == names_model(names@),
{
    let mut names = names;
    let ghost all = names_model(names@);
    let last = names.pop().unwrap();
    let mut id = Identifier { child: None, path: last };
    assert(names_model(names@) + id@ =~= all);
    while names.len() > 0
        invariant
            names_model(names@) + id@ == all,
        decreases names.len(),
    {
        let ghost before = names_model(names@);
        let ghost inner = id@;
        let seg = names.pop().unwrap();
        id = Identifier { child: Some(Box::new(id)), path: seg };
        assert(id@ =~= seq![seg@] + inner);
        assert(names_model(names@) + id@ =~= before + inner);
    }
    assert(names_model(names@) =~= Seq::<Seq<char>>::empty());
    assert(id@ =~= all);
    id
}

impl<'a> Source<'a> {
    /// The primary expression at `pos`.
    pub fn primary_expr(&self, pos: usize) -> (r: Option<(PrimaryExpr, usize)>)
        ensures
            match r {
                Some((e, p)) => primary_expr_model(self@, pos as int) == Some((e@, p as int))
                    && pos < p <= self@.len(),
                None => primary_expr_model(self@, pos as int) is None,
            },
        decreases self@.len() - pos, 3int,
    {
        proof {
            reveal_strlit("false");
            reveal_strlit("true");
        }
        if let Some((b, p)) = self.pbool(pos) {
            return Some((PrimaryExpr::Bool(b), p));
        }
        if let Some((b, p)) = self.block(pos) {
            return Some((PrimaryExpr::Block(b), p));
        }
        if let Some((n, p)) = self.number(pos) {
            return Some((PrimaryExpr::DecimalInt(n), p));
        }
        if let Some((id, p)) = self.identifier(pos) {
            return Some((PrimaryExpr::Identifier(id), p));
        }
        if let Some((t, p)) = self.pstring(pos) {
            return Some((PrimaryExpr::StringLiteral(t), p));
        }
        if let Some((f, p)) = self.pcompound(pos) {
            let e = PrimaryExpr::Compound(f);
            assert(e@->Compound_0 =~= fields_model(f@));
            return Some((e, p));
        }
        None
    }

    /// The block at `pos`.
    pub fn block(&self, pos: usize) -> (r: Option<(Block, usize)>)
        ensures
            match r {
                Some((b, p)) => block_model(self@, pos as int) == Some((b@, p as int)) && pos < p
                    <= self@.len(),
                None => block_model(self@, pos as int) is None,
            },
        decreases self@.len() - pos, 2int,
    {
        if !self.at(pos, '{') {
            return None;
        }
        let (elements, p) = self.block_inner(pos + 1);
        if self.at(p, '}') {
            Some((elements, p + 1))
        } else {
            None
        }
    }

    /// One field of a compound literal at `pos`.
    pub fn field(&self, pos: usize) -> (r: Option<((String, Expr), usize)>)
        ensures
            match r {
                Some((f, p)) => field_model(self@, pos as int) == Some(((f.0@, f.1@), p as int))
                    && pos < p <= self@.len(),
                None => field_model(self@, pos as int) is None,
            },
        decreases self@.len() - pos, 1int,
    {
        let (key, p) = match self.identifier(pos) {
            Some(r) => r,
            None => {
                return None;
            },
        };
        if !self.at(p, '=') {
            return None;
        }
        match self.expr(p + 1) {
            Some((e, q)) => Some(((key, e), q)),
            None => None,
        }
    }

    /// The compound literal at `pos`, as its fields.
    pub fn pcompound(&self, pos: usize) -> (r: Option<(Vec<(String, Expr)>, usize)>)
        ensures
            match r {
                Some((f, p)) => compound_model(self@, pos as int) == Some(
                    (fields_model(f@), p as int),
                ) && pos < p <= self@.len(),
                None => compound_model(self@, pos as int) is None,
            },
        decreases self@.len() - pos, 2int,
    {
        proof {
            use_type_invariant(self);
        }
        if !self.at(pos, '(') {
            return None;
        }
        let len = self.chars.len();
        let mut fields: Vec<(String, Expr)> = Vec::new();
        let mut p = pos + 1;
        match self.field(pos + 1) {
            Some((f, q)) => {
                let ghost first = (f.0@, f.1@);
                fields.push(f);
                assert(fields_model(fields@) =~= seq![first]);
                p = q;
                let ghost start = q;
                loop
                    invariant
                        self.wf(),
                        len == self@.len(),
                        pos < p <= len,
                        fields_rest(self@, p as int, fields_model(fields@)) == fields_rest(
                            self@,
                            start as int,
                            seq![first],
                        ),
                    ensures
                        pos < p <= len,
                        fields_rest(self@, start as int, seq![first]) == (
                            fields_model(fields@),
                            p as int,
                        ),
                    decreases len - p,
                {
                    if !self.at(p, ',') {
                        break ;
                    }
                    match self.field(p + 1) {
                        Some((f, q)) => {
                            put_field(&mut fields, f.0, f.1);
                            p = q;
                        },
                        None => {
                            break ;
                        },
                    }
                }
            },
            None => {
                assert(fields_model(fields@) =~= Seq::<(Seq<char>, ExprModel)>::empty());
            },
        }
        if self.at(p, ')') {
            Some((fields, p + 1))
        } else {
            None
        }
    }

    /// A product at `pos`, or the primary expression that stands alone.
    pub fn mul_div(&self, pos: usize) -> (r: Option<(Expr, usize)>)
        ensures
            match r {
                Some((e, p)) => mul_level_model(self@, pos as int) == Some((e@, p as int)) && pos
                    < p <= self@.len(),
                None => mul_level_model(self@, pos as int) is None,
            },
        decreases self@.len() - pos, 4int,
    {
        proof {
            use_type_invariant(self);
        }
        let (first, end) = match self.primary_expr(pos) {
            Some(r) => r,
            None => {
                return None;
            },
        };
        let len = self.chars.len();
        let start = self.skip_space(end);
        let mut acc = Expr::Primary(first);
        let ghost seed = acc@;
        let mut any = false;
        let mut stop = end;
        let mut p = start;
        loop
            invariant
                self.wf(),
                len == self@.len(),
                pos < p <= len,
                pos < stop <= len,
                !any ==> acc@ == seed && stop == end,
                any ==> stop == p,
                mul_tail(self@, p as int, acc@, any) == mul_tail(
                    self@,
                    start as int,
                    seed,
                    false,
                ),
            ensures
                pos < stop <= len,
                !any ==> acc@ == seed && stop == end,
                any ==> stop == p,
                mul_tail(self@, start as int, seed, false) == (acc@, p as int, any),
            decreases len - p,
        {
            let op = if self.at(p, '*') {
                MulDivOp::Mul
            } else if self.at(p, '/') {
                MulDivOp::Div
            } else {
                break ;
            };
            let pos1 = self.skip_space(p + 1);
            match self.primary_expr(pos1) {
                Some((t, pos2)) => {
                    acc = binop(acc, op, Expr::Primary(t));
                    p = self.skip_space(pos2);
                    stop = p;
                    any = true;
                },
                None => {
                    break ;
                },
            }
        }
        Some((acc, stop))
    }

    /// A sum at `pos`, or the product that stands alone.
    pub fn add_sub(&self, pos: usize) -> (r: Option<(Expr, usize)>)
        ensures
            match r {
                Some((e, p)) => add_level_model(self@, pos as int) == Some((e@, p as int)) && pos
                    < p <= self@.len(),
                None => add_level_model(self@, pos as int) is None,
            },
        decreases self@.len() - pos, 5int,
    {
        proof {
            use_type_invariant(self);
        }
        let (first, end) = match self.mul_div(pos) {
            Some(r) => r,
            None => {
                return None;
            },
        };
        let len = self.chars.len();
        let start = self.skip_space(end);
        let mut acc = first;
        let ghost seed = acc@;
        let mut any = false;
        let mut stop = end;
        let mut p = start;
        loop
            invariant
                self.wf(),
                len == self@.len(),
                pos < p <= len,
                pos < stop <= len,
                !any ==> acc@ == seed && stop == end,
                any ==> stop == p,
                add_tail(self@, p as int, acc@, any) == add_tail(
                    self@,
                    start as int,
                    seed,
                    false,
                ),
            ensures
                pos < stop <= len,
                !any ==> acc@ == seed && stop == end,
                any ==> stop == p,
                add_tail(self@, start as int, seed, false) == (acc@, p as int, any),
            decreases len - p,
        {
            let op = if self.at(p, '+') {
                AddSubOp::Add
            } else if self.at(p, '-') {
                AddSubOp::Sub
            } else {
                break ;
            };
            let pos1 = self.skip_space(p + 1);
            match self.mul_div(pos1) {
                Some((t, pos2)) => {
                    acc = binop(acc, op, t);
                    p = self.skip_space(pos2);
                    stop = p;
                    any = true;
                },
                None => {
                    break ;
                },
            }
        }
        Some((acc, stop))
    }

    /// The function application at `pos`.
    pub fn function_application(&self, pos: usize) -> (r: Option<(FunctionApplication, usize)>)
        ensures
            match r {
                Some((c, p)) => function_application_model(self@, pos as int) == Some(
                    (c@, p as int),
                ) && pos < p <= self@.len(),
                None => function_application_model(self@, pos as int) is None,
            },
        decreases self@.len() - pos, 6int,
    {
        proof {
            use_type_invariant(self);
        }
        let pos0 = self.skip_space(pos);
        let (names, pos1) = match self.function_name(pos0) {
            Some(r) => r,
            None => {
                return None;
            },
        };
        let len = self.chars.len();
        let pos2 = self.skip_space(pos1);
        let mut args: Vec<PrimaryExpr> = Vec::new();
        let mut p = pos2;
        match self.primary_expr(pos2) {
            Some((a, q)) => {
                let ghost first = a@;
                args.push(a);
                assert(primaries_model(args@) =~= seq![first]);
                p = q;
                let ghost start = q;
                loop
                    invariant
                        self.wf(),
                        len == self@.len(),
                        pos < p <= len,
                        args_rest(self@, p as int, primaries_model(args@)) == args_rest(
                            self@,
                            start as int,
                            seq![first],
                        ),
                    ensures
                        pos < p <= len,
                        args_rest(self@, start as int, seq![first]) == (
                            primaries_model(args@),
                            p as int,
                        ),
                    decreases len - p,
                {
                    let q0 = self.skip_space(p);
                    if q0 == p {
                        break ;
                    }
                    match self.primary_expr(q0) {
                        Some((a, q)) => {
                            let ghost before = primaries_model(args@);
                            let ghost next = a@;
                            args.push(a);
                            assert(primaries_model(args@) =~= before.push(next));
                            p = q;
                        },
                        None => {
                            break ;
                        },
                    }
                }
            },
            None => {
                assert(primaries_model(args@) =~= Seq::<PrimaryModel>::empty());
            },
        }
        let options: Vec<(String, PrimaryExpr)> = Vec::new();
        let c = FunctionApplication { fident: dotted(names), options, args };
        assert(c@.options =~= Seq::<(Seq<char>, PrimaryModel)>::empty());
        assert(c@.args =~= primaries_model(args@));
        Some((c, p))
    }

    /// The conditional at `pos`.
    pub fn if_expr(&self, pos: usize) -> (r: Option<(Expr, usize)>)
        ensures
            match r {
                Some((e, p)) => if_model(self@, pos as int) == Some((e@, p as int)) && pos < p
                    <= self@.len(),
                None => if_model(self@, pos as int) is None,
            },
        decreases self@.len() - pos, 6int,
    {
        proof {
            reveal_strlit("if");
        }
        let pos0 = match self.tag(pos, "if") {
            Some(p) => p,
            None => {
                return None;
            },
        };
        let pos1 = self.skip_space(pos0);
        let (cond, pos2) = match self.expr(pos1) {
            Some(r) => r,
            None => {
                return None;
            },
        };
        let pos3 = self.skip_space(pos2);
        let pos3b = match self.tag(pos3, "then") {
            Some(p) => p,
            None => {
                return None;
            },
        };
        let pos4 = self.skip_space(pos3b);
        let (yes, pos5) = match self.block(pos4) {
            Some(r) => r,
            None => {
                return None;
            },
        };
        let pos6 = self.skip_space(pos5);
        let pos6b = match self.tag(pos6, "else") {
            Some(p) => p,
            None => {
                return None;
            },
        };
        let pos7 = self.skip_space(pos6b);
        let (no, pos8) = match self.block(pos7) {
            Some(r) => r,
            None => {
                return None;
            },
        };
        let yes = PrimaryExpr::Block(yes);
        let no = PrimaryExpr::Block(no);
        let ghost yes_model = yes@;
        let ghost no_model = no@;
        let true_exp = Expr::Primary(yes);
        let false_expr = Expr::Primary(no);
        assert(true_exp@ == ExprModel::Primary(yes_model));
        assert(false_expr@ == ExprModel::Primary(no_model));
        Some(
            (
                Expr::If(
                    If {
                        cond: Box::new(cond),
                        true_exp: Box::new(true_exp),
                        false_expr: Box::new(false_expr),
                    },
                ),
                pos8,
            ),
        )
    }

    /// The expression at `pos`.
    pub fn expr(&self, pos: usize) -> (r: Option<(Expr, usize)>)
        ensures
            match r {
                Some((e, p)) => expr_model(self@, pos as int) == Some((e@, p as int)) && pos < p
                    <= self@.len(),
                None => expr_model(self@, pos as int) is None,
            },
        decreases self@.len() - pos, 7int,
    {
        if let Some(r) = self.if_expr(pos) {
            return Some(r);
        }
        if let Some((c, p)) = self.function_application(pos) {
            return Some((Expr::FunctionApplication(c), p));
        }
        self.add_sub(pos)
    }

    /// A keyword, a name and `=`: the name, and the place behind the blanks
    /// that follow the `=`.
    pub fn binding(&self, pos: usize, keyword: &str) -> (r: Option<(String, usize)>)
        ensures
            match r {
                Some((name, p)) => binding_head(self@, pos as int, keyword@) == Some(
                    (name@, p as int),
                ) && pos < p <= self@.len(),
                None => binding_head(self@, pos as int, keyword@) is None,
            },
    {
        let pos0 = match self.tag(pos, keyword) {
            Some(p) => p,
            None => {
                return None;
            },
        };
        let (name, pos1) = match self.identifier(self.skip_space(pos0)) {
            Some(r) => r,
            None => {
                return None;
            },
        };
        let pos2 = self.skip_space(pos1);
        if self.at(pos2, '=') {
            Some((name, self.skip_space(pos2 + 1)))
        } else {
            None
        }
    }

    /// The `using` binding at `pos`.
    pub fn block_element_using(&self, pos: usize) -> (r: Option<(BlockElement, usize)>)
        ensures
            match r {
                Some((e, p)) => using_model_at(self@, pos as int) == Some((e@, p as int)) && pos
                    < p <= self@.len(),
                None => using_model_at(self@, pos as int) is None,
            },
        decreases self@.len() - pos, 7int,
    {
        let (name, p) = match self.binding(pos, "using") {
            Some(r) => r,
            None => {
                return None;
            },
        };
        match self.function_application(p) {
            Some((def, q)) => Some((BlockElement::Using { name, def }, q)),
            None => None,
        }
    }

    /// The `let` binding at `pos`.
    pub fn block_element_var(&self, pos: usize) -> (r: Option<(BlockElement, usize)>)
        ensures
            match r {
                Some((e, p)) => var_model(self@, pos as int) == Some((e@, p as int)) && pos < p
                    <= self@.len(),
                None => var_model(self@, pos as int) is None,
            },
        decreases self@.len() - pos, 7int,
    {
        let (name, p) = match self.binding(pos, "let") {
            Some(r) => r,
            None => {
                return None;
            },
        };
        match self.expr(p) {
            Some((def, q)) => Some((BlockElement::Var { name, def }, q)),
            None => None,
        }
    }

    /// The element of a block at `pos`.
    pub fn block_element(&self, pos: usize) -> (r: Option<(BlockElement, usize)>)
        ensures
            match r {
                Some((e, p)) => block_element_model(self@, pos as int) == Some((e@, p as int))
                    && pos < p <= self@.len(),
                None => block_element_model(self@, pos as int) is None,
            },
        decreases self@.len() - pos, 8int,
    {
        if let Some(r) = self.block_element_var(pos) {
            return Some(r);
        }
        if let Some(r) = self.block_element_using(pos) {
            return Some(r);
        }
        match self.expr(pos) {
            Some((e, p)) => Some((BlockElement::Expr(e), p)),
            None => None,
        }
    }

    /// The elements of a block from `pos` on.
    pub fn block_inner(&self, pos: usize) -> (r: (Block, usize))
        ensures
            block_inner_model(self@, pos as int) == (r.0@, r.1 as int),
            pos <= r.1,
            pos <= self@.len() ==> r.1 <= self@.len(),
        decreases self@.len() - pos, 9int,
    {
        proof {
            use_type_invariant(self);
        }
        if pos > self.chars.len() {
            let none = Block(Vec::new());
            assert(none@ =~= Seq::<ElementModel>::empty());
            return (none, pos);
        }
        let len = self.chars.len();
        let mut elements: Vec<BlockElement> = Vec::new();
        let mut p = pos;
        match self.block_element(pos) {
            Some((e, q)) => {
                let ghost first = e@;
                elements.push(e);
                assert(elements_model(elements@) =~= seq![first]);
                p = q;
                let ghost start = q;
                loop
                    invariant
                        self.wf(),
                        len == self@.len(),
                        pos < p <= len,
                        block_rest(self@, p as int, elements_model(elements@)) == block_rest(
                            self@,
                            start as int,
                            seq![first],
                        ),
                    ensures
                        pos < p <= len,
                        block_rest(self@, start as int, seq![first]) == (
                            elements_model(elements@),
                            p as int,
                        ),
                    decreases len - p,
                {
                    if !(self.at(p, ';') || self.at(p, '\n')) {
                        break ;
                    }
                    match self.block_element(p + 1) {
                        Some((e, q)) => {
                            let ghost before = elements_model(elements@);
                            let ghost next = e@;
                            elements.push(e);
                            assert(elements_model(elements@) =~= before.push(next));
                            p = q;
                        },
                        None => {
                            break ;
                        },
                    }
                }
            },
            None => {
                assert(elements_model(elements@) =~= Seq::<ElementModel>::empty());
            },
        }
        let b = Block(elements);
        assert(b@ =~= elements_model(elements@));
        (b, p)
    }
}

/// Reads one line of an interactive session: one element that is the whole
/// text. The error holds the text behind the element that was read, and the
/// whole text where none was.
pub fn parse_line(input: &str) -> (r: Result<BlockElement, ParseError>)
    ensures
        match r {
            Ok(e) => line_model(input@) == Some(e@),
            Err(err) => line_model(input@) is None && err.rest@ == input@.subrange(
                line_end(input@),
                input@.len() as int,
            ),
        },
{
    let src = Source::new(input);
    let len = src.len();
    match src.block_element(0) {
        Some((e, p)) => if p == len {
            Ok(e)
        } else {
            Err(ParseError { rest: src.slice(p, len).to_owned() })
        },
        None => Err(ParseError { rest: src.slice(0, len).to_owned() }),
    }
}

/// Reads a whole file: elements with `;` or an end of line between them,
/// then blanks and ends of line, then nothing. The error holds the text
/// from the place at which the elements and the blanks behind them ended.
pub fn parse_file(input: &str) -> (r: Result<Block, ParseError>)
    ensures
        match r {
            Ok(b) => file_model(input@) == Some(b@),
            Err(err) => file_model(input@) is None && err.rest@ == input@.subrange(
                file_end(input@),
                input@.len() as int,
            ),
        },
{
    let src = Source::new(input);
    let len = src.len();
    let (block, p) = src.block_inner(0);
    let end = src.skip_multispace(p);
    if end == len {
        Ok(block)
    } else {
        Err(ParseError { rest: src.slice(end, len).to_owned() })
    }
}

/// Reads a primary expression at the start of the text, and gives the text
/// behind it. The error holds the whole text.
pub fn primary_expr(input: &str) -> (r: Result<(&str, PrimaryExpr), ParseError>)
    ensures
        match r {
            Ok((rest, e)) => primary_expr_model(input@, 0) matches Some((m, p)) && m == e@
                && rest@ == input@.subrange(p, input@.len() as int),
            Err(err) => primary_expr_model(input@, 0) is None && err.rest@ == input@,
        },
{
    let src = Source::new(input);
    let len = src.len();
    match src.primary_expr(0) {
        Some((e, p)) => Ok((src.slice(p, len), e)),
        None => Err(ParseError { rest: input.to_owned() }),
    }
}

/// Reads a function application at the start of the text, and gives the
/// text behind it. The error holds the whole text.
pub fn function_application(input: &str) -> (r: Result<(&str, FunctionApplication), ParseError>)
    ensures
        match r {
            Ok((rest, c)) => function_application_model(input@, 0) matches Some((m, p)) && m
                == c@ && rest@ == input@.subrange(p, input@.len() as int),
            Err(err) => function_application_model(input@, 0) is None && err.rest@ == input@,
        },
{
    let src = Source::new(input);
    let len = src.len();
    match src.function_application(0) {
        Some((c, p)) => Ok((src.slice(p, len), c)),
        None => Err(ParseError { rest: input.to_owned() }),
    }
}

/// Reads an identifier at the start of the text, and gives the text behind
/// it. The error holds the whole text.
pub fn identifer(input: &str) -> (r: Result<(&str, String), ParseError>)
    ensures
        match r {
            Ok((rest, id)) => identifier_model(input@, 0) matches Some((m, p)) && m == id@
                && rest@ == input@.subrange(p, input@.len() as int),
            Err(err) => identifier_model(input@, 0) is None && err.rest@ == input@,
        },
{
    let src = Source::new(input);
    let len = src.len();
    match src.identifier(0) {
        Some((id, p)) => Ok((src.slice(p, len), id)),
        None => Err(ParseError { rest: input.to_owned() }),
    }
}

/// Reads a dotted name at the start of the text, and gives the text behind
/// it with the name's segments. The error holds the whole text.
pub fn function_name(input: &str) -> (r: Result<(&str, Vec<String>), ParseError>)
    ensures
        match r {
            Ok((rest, names)) => function_name_model(input@, 0) matches Some((m, p)) && m
                == names_model(names@) && rest@ == input@.subrange(p, input@.len() as int),
            Err(err) => function_name_model(input@, 0) is None && err.rest@ == input@,
        },
{
    let src = Source::new(input);
    let len = src.len();
    match src.function_name(0) {
        Some((names, p)) => Ok((src.slice(p, len), names)),
        None => Err(ParseError { rest: input.to_owned() }),
    }
}

} // verus!
