//! The concrete-syntax-tree model the formatter works on: a closed set of
//! node kinds, byte spans into the source text, and ordered children.  The
//! kind names follow the grammar rules of the external parser; `comments` is
//! a synthetic kind that only the comment-reattachment pass introduces.

use vstd::prelude::*;

use crate::bytes::ascii_of;

verus! {

#[allow(non_camel_case_types)]
#[derive(Clone, Copy, PartialEq, Eq, Structural)]
pub enum Rule {
    misc,
    program_saty,
    program_satyh,
    preamble,
    stage,
    headers,
    header_require,
    header_import,
    pkgname,
    let_stmt,
    let_rec_stmt,
    let_rec_inner,
    let_rec_matcharm,
    let_inline_stmt_ctx,
    let_inline_stmt_noctx,
    let_block_stmt_ctx,
    let_block_stmt_noctx,
    let_math_stmt,
    let_mutable_stmt,
    type_stmt,
    type_inner,
    type_variant,
    module_stmt,
    open_stmt,
    arg,
    sig_stmt,
    struct_stmt,
    sig_type_stmt,
    sig_val_stmt,
    sig_direct_stmt,
    type_expr,
    type_optional,
    type_prod,
    type_inline_cmd,
    type_block_cmd,
    type_math_cmd,
    type_list_unit_optional,
    type_application,
    typename,
    type_record,
    type_record_unit,
    type_param,
    constraint,
    pat_as,
    pat_cons,
    pattern,
    pat_variant,
    pat_list,
    pat_tuple,
    expr,
    match_expr,
    match_arm,
    match_guard,
    bind_stmt,
    ctrl_while,
    ctrl_if,
    lambda,
    assignment,
    dyadic_expr,
    unary_operator_expr,
    unary_operator,
    application,
    application_args_normal,
    application_args_optional,
    command_application,
    variant_constructor,
    unary,
    unary_prefix,
    block_text,
    horizontal_text,
    math_text,
    list,
    record,
    record_unit,
    tuple,
    bin_operator,
    expr_with_mod,
    var,
    var_ptn,
    modvar,
    mod_cmd_name,
    module_name,
    variant_name,
    cmd_name_ptn,
    cmd_expr_arg,
    cmd_expr_option,
    cmd_text_arg,
    inline_cmd,
    inline_cmd_name,
    block_cmd,
    block_cmd_name,
    math_cmd,
    math_cmd_name,
    math_cmd_expr_arg,
    math_cmd_expr_option,
    horizontal_single,
    horizontal_list,
    horizontal_bullet_list,
    horizontal_bullet,
    horizontal_bullet_star,
    regular_text,
    horizontal_escaped_char,
    inline_text_embedding,
    vertical,
    block_text_embedding,
    const_unit,
    const_bool,
    const_int,
    const_float,
    const_length,
    const_string,
    math_single,
    math_list,
    math_token,
    math_sup,
    math_sub,
    math_unary,
    math_embedding,
    dummy_header,
    dummy_sig_stmt,
    dummy_stmt,
    dummy_inline_cmd_incomplete,
    dummy_block_cmd_incomplete,
    dummy_modvar_incomplete,
    comments,
}

impl Rule {
    /// The dummy kinds are the parser's error-recovery nodes; a tree holding
    /// one is not formatted (the renderer's dispatch would have no rendering
    /// rule for it).
    pub open spec fn is_dummy(self) -> bool {
        self == Rule::dummy_header || self == Rule::dummy_sig_stmt || self == Rule::dummy_stmt
            || self == Rule::dummy_inline_cmd_incomplete || self == Rule::dummy_block_cmd_incomplete
            || self == Rule::dummy_modvar_incomplete
    }

    /// Kinds whose rendering reads the first or last byte of their own source
    /// text, and therefore need a non-empty span.
    pub open spec fn needs_text(self) -> bool {
        self == Rule::cmd_text_arg || self == Rule::horizontal_text
            || self == Rule::horizontal_bullet_star
    }

    pub fn is_dummy_rule(self) -> (r: bool)
        ensures
            r == self.is_dummy(),
    {
        match self {
            Rule::dummy_header => true,
            Rule::dummy_sig_stmt => true,
            Rule::dummy_stmt => true,
            Rule::dummy_inline_cmd_incomplete => true,
            Rule::dummy_block_cmd_incomplete => true,
            Rule::dummy_modvar_incomplete => true,
            _ => false,
        }
    }

    pub fn needs_text_rule(self) -> (r: bool)
        ensures
            r == self.needs_text(),
    {
        match self {
            Rule::cmd_text_arg => true,
            Rule::horizontal_text => true,
            Rule::horizontal_bullet_star => true,
            _ => false,
        }
    }
}

/// A half-open byte range `[start, end)` into the source text.
#[derive(Clone, Copy, PartialEq, Eq, Structural)]
pub struct Span {
    pub start: usize,
    pub end: usize,
}

/// One node of the concrete syntax tree.
pub struct CstNode {
    pub rule: Rule,
    pub span: Span,
    pub inner: Vec<CstNode>,
}

/// The mathematical shape of a tree node; every contract of the formatter
/// speaks of this form.
pub struct CstView {
    pub rule: Rule,
    pub start: int,
    pub end: int,
    pub inner: Seq<CstView>,
}

impl View for CstNode {
    type V = CstView;

    open spec fn view(&self) -> CstView
        decreases self, 1int, 0int,
    {
        CstView {
            rule: self.rule,
            start: self.span.start as int,
            end: self.span.end as int,
            inner: view_children(*self, 0),
        }
    }
}

pub open spec fn view_children(c: CstNode, i: int) -> Seq<CstView>
    decreases c, 0int, c.inner@.len() - i,
{
    if i < 0 || i >= c.inner@.len() {
        Seq::empty()
    } else {
        seq![c.inner@[i]@] + view_children(c, i + 1)
    }
}

pub proof fn lemma_view_children(c: CstNode, i: int)
    requires
        0 <= i <= c.inner@.len(),
    ensures
        view_children(c, i).len() == c.inner@.len() - i,
        forall|j: int|
            0 <= j < c.inner@.len() - i ==> view_children(c, i)[j] == #[trigger] c.inner@[i + j]@,
    decreases c.inner@.len() - i,
{
    reveal_with_fuel(view_children, 2);
    if i < c.inner@.len() {
        lemma_view_children(c, i + 1);
        assert forall|j: int| 0 <= j < c.inner@.len() - i implies view_children(c, i)[j]
            == #[trigger] c.inner@[i + j]@ by {
            if j > 0 {
                assert(view_children(c, i)[j] == view_children(c, i + 1)[j - 1]);
                assert(view_children(c, i + 1)[j - 1] == c.inner@[(i + 1) + (j - 1)]@);
                assert(c.inner@[(i + 1) + (j - 1)]@ == c.inner@[i + j]@);
            }
        }
    }
}

/// The view of a node lines its children up with the views of the vector's
/// elements.
pub proof fn lemma_view(c: CstNode)
    ensures
        c@.inner.len() == c.inner@.len(),
        forall|i: int| 0 <= i < c.inner@.len() ==> c@.inner[i] == #[trigger] c.inner@[i]@,
        c@.rule == c.rule,
        c@.start == c.span.start,
        c@.end == c.span.end,
{
    lemma_view_children(c, 0);
    assert(c@.inner == view_children(c, 0));
    assert forall|i: int| 0 <= i < c.inner@.len() implies c@.inner[i] == #[trigger] c.inner@[i]@ by {
        assert(view_children(c, 0)[i] == c.inner@[0 + i]@);
    }
}

impl CstView {
    /// Well-formedness with respect to a source text of `len` bytes: every
    /// span is an ordered byte range inside the text, no error-recovery node
    /// is present, and the kinds that read their own source bytes have
    /// non-empty spans.
    pub open spec fn wf(self, len: int) -> bool
        decreases self,
    {
        &&& 0 <= self.start <= self.end <= len
        &&& !self.rule.is_dummy()
        &&& (self.rule.needs_text() ==> self.start < self.end)
        &&& forall|i: int| 0 <= i < self.inner.len() ==> (#[trigger] self.inner[i]).wf(len)
    }

    pub open spec fn leaf(rule: Rule, start: int, end: int) -> CstView {
        CstView { rule, start, end, inner: Seq::empty() }
    }
}


} // verus!

verus! {

use crate::bytes::{eq_bytes, lit};

impl Rule {
    /// The grammar-rule name of each kind, as the external parser prints it.
    pub open spec fn name_bytes(self) -> Seq<u8> {
        match self {
        Rule::misc => ascii_of("misc"@),
        Rule::program_saty => ascii_of("program_saty"@),
        Rule::program_satyh => ascii_of("program_satyh"@),
        Rule::preamble => ascii_of("preamble"@),
        Rule::stage => ascii_of("stage"@),
        Rule::headers => ascii_of("headers"@),
        Rule::header_require => ascii_of("header_require"@),
        Rule::header_import => ascii_of("header_import"@),
        Rule::pkgname => ascii_of("pkgname"@),
        Rule::let_stmt => ascii_of("let_stmt"@),
        Rule::let_rec_stmt => ascii_of("let_rec_stmt"@),
        Rule::let_rec_inner => ascii_of("let_rec_inner"@),
        Rule::let_rec_matcharm => ascii_of("let_rec_matcharm"@),
        Rule::let_inline_stmt_ctx => ascii_of("let_inline_stmt_ctx"@),
        Rule::let_inline_stmt_noctx => ascii_of("let_inline_stmt_noctx"@),
        Rule::let_block_stmt_ctx => ascii_of("let_block_stmt_ctx"@),
        Rule::let_block_stmt_noctx => ascii_of("let_block_stmt_noctx"@),
        Rule::let_math_stmt => ascii_of("let_math_stmt"@),
        Rule::let_mutable_stmt => ascii_of("let_mutable_stmt"@),
        Rule::type_stmt => ascii_of("type_stmt"@),
        Rule::type_inner => ascii_of("type_inner"@),
        Rule::type_variant => ascii_of("type_variant"@),
        Rule::module_stmt => ascii_of("module_stmt"@),
        Rule::open_stmt => ascii_of("open_stmt"@),
        Rule::arg => ascii_of("arg"@),
        Rule::sig_stmt => ascii_of("sig_stmt"@),
        Rule::struct_stmt => ascii_of("struct_stmt"@),
        Rule::sig_type_stmt => ascii_of("sig_type_stmt"@),
        Rule::sig_val_stmt => ascii_of("sig_val_stmt"@),
        Rule::sig_direct_stmt => ascii_of("sig_direct_stmt"@),
        Rule::type_expr => ascii_of("type_expr"@),
        Rule::type_optional => ascii_of("type_optional"@),
        Rule::type_prod => ascii_of("type_prod"@),
        Rule::type_inline_cmd => ascii_of("type_inline_cmd"@),
        Rule::type_block_cmd => ascii_of("type_block_cmd"@),
        Rule::type_math_cmd => ascii_of("type_math_cmd"@),
        Rule::type_list_unit_optional => ascii_of("type_list_unit_optional"@),
        Rule::type_application => ascii_of("type_application"@),
        Rule::typename => ascii_of("type_name"@),
        Rule::type_record => ascii_of("type_record"@),
        Rule::type_record_unit => ascii_of("type_record_unit"@),
        Rule::type_param => ascii_of("type_param"@),
        Rule::constraint => ascii_of("constraint"@),
        Rule::pat_as => ascii_of("pat_as"@),
        Rule::pat_cons => ascii_of("pat_cons"@),
        Rule::pattern => ascii_of("pattern"@),
        Rule::pat_variant => ascii_of("pat_variant"@),
        Rule::pat_list => ascii_of("pat_list"@),
        Rule::pat_tuple => ascii_of("pat_tuple"@),
        Rule::expr => ascii_of("expr"@),
        Rule::match_expr => ascii_of("match_expr"@),
        Rule::match_arm => ascii_of("match_arm"@),
        Rule::match_guard => ascii_of("match_guard"@),
        Rule::bind_stmt => ascii_of("bind_stmt"@),
        Rule::ctrl_while => ascii_of("ctrl_while"@),
        Rule::ctrl_if => ascii_of("ctrl_if"@),
        Rule::lambda => ascii_of("lambda"@),
        Rule::assignment => ascii_of("assignment"@),
        Rule::dyadic_expr => ascii_of("dyadic_expr"@),
        Rule::unary_operator_expr => ascii_of("unary_operator_expr"@),
        Rule::unary_operator => ascii_of("unary_operator"@),
        Rule::application => ascii_of("application"@),
        Rule::application_args_normal => ascii_of("application_args_normal"@),
        Rule::application_args_optional => ascii_of("application_args_optional"@),
        Rule::command_application => ascii_of("command_application"@),
        Rule::variant_constructor => ascii_of("variant_constructor"@),
        Rule::unary => ascii_of("unary"@),
        Rule::unary_prefix => ascii_of("unary_prefix"@),
        Rule::block_text => ascii_of("block_text"@),
        Rule::horizontal_text => ascii_of("horizontal_text"@),
        Rule::math_text => ascii_of("math_text"@),
        Rule::list => ascii_of("list"@),
        Rule::record => ascii_of("record"@),
        Rule::record_unit => ascii_of("record_unit"@),
        Rule::tuple => ascii_of("tuple"@),
        Rule::bin_operator => ascii_of("bin_operator"@),
        Rule::expr_with_mod => ascii_of("expr_with_mod"@),
        Rule::var => ascii_of("var"@),
        Rule::var_ptn => ascii_of("var_ptn"@),
        Rule::modvar => ascii_of("modvar"@),
        Rule::mod_cmd_name => ascii_of("mod_cmd_name"@),
        Rule::module_name => ascii_of("module_name"@),
        Rule::variant_name => ascii_of("variant_name"@),
        Rule::cmd_name_ptn => ascii_of("cmd_name_ptn"@),
        Rule::cmd_expr_arg => ascii_of("cmd_expr_arg"@),
        Rule::cmd_expr_option => ascii_of("cmd_expr_option"@),
        Rule::cmd_text_arg => ascii_of("cmd_text_arg"@),
        Rule::inline_cmd => ascii_of("inline_cmd"@),
        Rule::inline_cmd_name => ascii_of("inline_cmd_name"@),
        Rule::block_cmd => ascii_of("block_cmd"@),
        Rule::block_cmd_name => ascii_of("block_cmd_name"@),
        Rule::math_cmd => ascii_of("math_cmd"@),
        Rule::math_cmd_name => ascii_of("math_cmd_name"@),
        Rule::math_cmd_expr_arg => ascii_of("math_cmd_expr_arg"@),
        Rule::math_cmd_expr_option => ascii_of("math_cmd_expr_option"@),
        Rule::horizontal_single => ascii_of("horizontal_single"@),
        Rule::horizontal_list => ascii_of("horizontal_list"@),
        Rule::horizontal_bullet_list => ascii_of("horizontal_bullet_list"@),
        Rule::horizontal_bullet => ascii_of("horizontal_bullet"@),
        Rule::horizontal_bullet_star => ascii_of("horizontal_bullet_star"@),
        Rule::regular_text => ascii_of("regular_text"@),
        Rule::horizontal_escaped_char => ascii_of("horizontal_escaped_char"@),
        Rule::inline_text_embedding => ascii_of("inline_text_embedding"@),
        Rule::vertical => ascii_of("vertical"@),
        Rule::block_text_embedding => ascii_of("block_text_embedding"@),
        Rule::const_unit => ascii_of("const_unit"@),
        Rule::const_bool => ascii_of("const_bool"@),
        Rule::const_int => ascii_of("const_int"@),
        Rule::const_float => ascii_of("const_float"@),
        Rule::const_length => ascii_of("const_length"@),
        Rule::const_string => ascii_of("const_string"@),
        Rule::math_single => ascii_of("math_single"@),
        Rule::math_list => ascii_of("math_list"@),
        Rule::math_token => ascii_of("math_token"@),
        Rule::math_sup => ascii_of("math_sup"@),
        Rule::math_sub => ascii_of("math_sub"@),
        Rule::math_unary => ascii_of("math_unary"@),
        Rule::math_embedding => ascii_of("math_embedding"@),
        Rule::dummy_header => ascii_of("dummy_header"@),
        Rule::dummy_sig_stmt => ascii_of("dummy_sig_stmt"@),
        Rule::dummy_stmt => ascii_of("dummy_stmt"@),
        Rule::dummy_inline_cmd_incomplete => ascii_of("dummy_inline_cmd_incomplete"@),
        Rule::dummy_block_cmd_incomplete => ascii_of("dummy_block_cmd_incomplete"@),
        Rule::dummy_modvar_incomplete => ascii_of("dummy_modvar_incomplete"@),
        Rule::comments => ascii_of("comments"@),
        }
    }
}

/// The kind whose grammar-rule name is `name`, if any; the synthetic
/// `comments` kind has no external name and is never produced here.

/// The kind a grammar-rule name denotes, if any; the mathematical mirror of
/// `rule_from_name`.
pub open spec fn spec_rule_of(name: Seq<u8>) -> Option<Rule> {
    if name == ascii_of("misc"@) {
        Some(Rule::misc)
    } else if name == ascii_of("program_saty"@) {
        Some(Rule::program_saty)
    } else if name == ascii_of("program_satyh"@) {
        Some(Rule::program_satyh)
    } else if name == ascii_of("preamble"@) {
        Some(Rule::preamble)
    } else if name == ascii_of("stage"@) {
        Some(Rule::stage)
    } else if name == ascii_of("headers"@) {
        Some(Rule::headers)
    } else if name == ascii_of("header_require"@) {
        Some(Rule::header_require)
    } else if name == ascii_of("header_import"@) {
        Some(Rule::header_import)
    } else if name == ascii_of("pkgname"@) {
        Some(Rule::pkgname)
    } else if name == ascii_of("let_stmt"@) {
        Some(Rule::let_stmt)
    } else if name == ascii_of("let_rec_stmt"@) {
        Some(Rule::let_rec_stmt)
    } else if name == ascii_of("let_rec_inner"@) {
        Some(Rule::let_rec_inner)
    } else if name == ascii_of("let_rec_matcharm"@) {
        Some(Rule::let_rec_matcharm)
    } else if name == ascii_of("let_inline_stmt_ctx"@) {
        Some(Rule::let_inline_stmt_ctx)
    } else if name == ascii_of("let_inline_stmt_noctx"@) {
        Some(Rule::let_inline_stmt_noctx)
    } else if name == ascii_of("let_block_stmt_ctx"@) {
        Some(Rule::let_block_stmt_ctx)
    } else if name == ascii_of("let_block_stmt_noctx"@) {
        Some(Rule::let_block_stmt_noctx)
    } else if name == ascii_of("let_math_stmt"@) {
        Some(Rule::let_math_stmt)
    } else if name == ascii_of("let_mutable_stmt"@) {
        Some(Rule::let_mutable_stmt)
    } else if name == ascii_of("type_stmt"@) {
        Some(Rule::type_stmt)
    } else if name == ascii_of("type_inner"@) {
        Some(Rule::type_inner)
    } else if name == ascii_of("type_variant"@) {
        Some(Rule::type_variant)
    } else if name == ascii_of("module_stmt"@) {
        Some(Rule::module_stmt)
    } else if name == ascii_of("open_stmt"@) {
        Some(Rule::open_stmt)
    } else if name == ascii_of("arg"@) {
        Some(Rule::arg)
    } else if name == ascii_of("sig_stmt"@) {
        Some(Rule::sig_stmt)
    } else if name == ascii_of("struct_stmt"@) {
        Some(Rule::struct_stmt)
    } else if name == ascii_of("sig_type_stmt"@) {
        Some(Rule::sig_type_stmt)
    } else if name == ascii_of("sig_val_stmt"@) {
        Some(Rule::sig_val_stmt)
    } else if name == ascii_of("sig_direct_stmt"@) {
        Some(Rule::sig_direct_stmt)
    } else if name == ascii_of("type_expr"@) {
        Some(Rule::type_expr)
    } else if name == ascii_of("type_optional"@) {
        Some(Rule::type_optional)
    } else if name == ascii_of("type_prod"@) {
        Some(Rule::type_prod)
    } else if name == ascii_of("type_inline_cmd"@) {
        Some(Rule::type_inline_cmd)
    } else if name == ascii_of("type_block_cmd"@) {
        Some(Rule::type_block_cmd)
    } else if name == ascii_of("type_math_cmd"@) {
        Some(Rule::type_math_cmd)
    } else if name == ascii_of("type_list_unit_optional"@) {
        Some(Rule::type_list_unit_optional)
    } else if name == ascii_of("type_application"@) {
        Some(Rule::type_application)
    } else if name == ascii_of("type_name"@) {
        Some(Rule::typename)
    } else if name == ascii_of("type_record"@) {
        Some(Rule::type_record)
    } else if name == ascii_of("type_record_unit"@) {
        Some(Rule::type_record_unit)
    } else if name == ascii_of("type_param"@) {
        Some(Rule::type_param)
    } else if name == ascii_of("constraint"@) {
        Some(Rule::constraint)
    } else if name == ascii_of("pat_as"@) {
        Some(Rule::pat_as)
    } else if name == ascii_of("pat_cons"@) {
        Some(Rule::pat_cons)
    } else if name == ascii_of("pattern"@) {
        Some(Rule::pattern)
    } else if name == ascii_of("pat_variant"@) {
        Some(Rule::pat_variant)
    } else if name == ascii_of("pat_list"@) {
        Some(Rule::pat_list)
    } else if name == ascii_of("pat_tuple"@) {
        Some(Rule::pat_tuple)
    } else if name == ascii_of("expr"@) {
        Some(Rule::expr)
    } else if name == ascii_of("match_expr"@) {
        Some(Rule::match_expr)
    } else if name == ascii_of("match_arm"@) {
        Some(Rule::match_arm)
    } else if name == ascii_of("match_guard"@) {
        Some(Rule::match_guard)
    } else if name == ascii_of("bind_stmt"@) {
        Some(Rule::bind_stmt)
    } else if name == ascii_of("ctrl_while"@) {
        Some(Rule::ctrl_while)
    } else if name == ascii_of("ctrl_if"@) {
        Some(Rule::ctrl_if)
    } else if name == ascii_of("lambda"@) {
        Some(Rule::lambda)
    } else if name == ascii_of("assignment"@) {
        Some(Rule::assignment)
    } else if name == ascii_of("dyadic_expr"@) {
        Some(Rule::dyadic_expr)
    } else if name == ascii_of("unary_operator_expr"@) {
        Some(Rule::unary_operator_expr)
    } else if name == ascii_of("unary_operator"@) {
        Some(Rule::unary_operator)
    } else if name == ascii_of("application"@) {
        Some(Rule::application)
    } else if name == ascii_of("application_args_normal"@) {
        Some(Rule::application_args_normal)
    } else if name == ascii_of("application_args_optional"@) {
        Some(Rule::application_args_optional)
    } else if name == ascii_of("command_application"@) {
        Some(Rule::command_application)
    } else if name == ascii_of("variant_constructor"@) {
        Some(Rule::variant_constructor)
    } else if name == ascii_of("unary"@) {
        Some(Rule::unary)
    } else if name == ascii_of("unary_prefix"@) {
        Some(Rule::unary_prefix)
    } else if name == ascii_of("block_text"@) {
        Some(Rule::block_text)
    } else if name == ascii_of("horizontal_text"@) {
        Some(Rule::horizontal_text)
    } else if name == ascii_of("math_text"@) {
        Some(Rule::math_text)
    } else if name == ascii_of("list"@) {
        Some(Rule::list)
    } else if name == ascii_of("record"@) {
        Some(Rule::record)
    } else if name == ascii_of("record_unit"@) {
        Some(Rule::record_unit)
    } else if name == ascii_of("tuple"@) {
        Some(Rule::tuple)
    } else if name == ascii_of("bin_operator"@) {
        Some(Rule::bin_operator)
    } else if name == ascii_of("expr_with_mod"@) {
        Some(Rule::expr_with_mod)
    } else if name == ascii_of("var"@) {
        Some(Rule::var)
    } else if name == ascii_of("var_ptn"@) {
        Some(Rule::var_ptn)
    } else if name == ascii_of("modvar"@) {
        Some(Rule::modvar)
    } else if name == ascii_of("mod_cmd_name"@) {
        Some(Rule::mod_cmd_name)
    } else if name == ascii_of("module_name"@) {
        Some(Rule::module_name)
    } else if name == ascii_of("variant_name"@) {
        Some(Rule::variant_name)
    } else if name == ascii_of("cmd_name_ptn"@) {
        Some(Rule::cmd_name_ptn)
    } else if name == ascii_of("cmd_expr_arg"@) {
        Some(Rule::cmd_expr_arg)
    } else if name == ascii_of("cmd_expr_option"@) {
        Some(Rule::cmd_expr_option)
    } else if name == ascii_of("cmd_text_arg"@) {
        Some(Rule::cmd_text_arg)
    } else if name == ascii_of("inline_cmd"@) {
        Some(Rule::inline_cmd)
    } else if name == ascii_of("inline_cmd_name"@) {
        Some(Rule::inline_cmd_name)
    } else if name == ascii_of("block_cmd"@) {
        Some(Rule::block_cmd)
    } else if name == ascii_of("block_cmd_name"@) {
        Some(Rule::block_cmd_name)
    } else if name == ascii_of("math_cmd"@) {
        Some(Rule::math_cmd)
    } else if name == ascii_of("math_cmd_name"@) {
        Some(Rule::math_cmd_name)
    } else if name == ascii_of("math_cmd_expr_arg"@) {
        Some(Rule::math_cmd_expr_arg)
    } else if name == ascii_of("math_cmd_expr_option"@) {
        Some(Rule::math_cmd_expr_option)
    } else if name == ascii_of("horizontal_single"@) {
        Some(Rule::horizontal_single)
    } else if name == ascii_of("horizontal_list"@) {
        Some(Rule::horizontal_list)
    } else if name == ascii_of("horizontal_bullet_list"@) {
        Some(Rule::horizontal_bullet_list)
    } else if name == ascii_of("horizontal_bullet"@) {
        Some(Rule::horizontal_bullet)
    } else if name == ascii_of("horizontal_bullet_star"@) {
        Some(Rule::horizontal_bullet_star)
    } else if name == ascii_of("regular_text"@) {
        Some(Rule::regular_text)
    } else if name == ascii_of("horizontal_escaped_char"@) {
        Some(Rule::horizontal_escaped_char)
    } else if name == ascii_of("inline_text_embedding"@) {
        Some(Rule::inline_text_embedding)
    } else if name == ascii_of("vertical"@) {
        Some(Rule::vertical)
    } else if name == ascii_of("block_text_embedding"@) {
        Some(Rule::block_text_embedding)
    } else if name == ascii_of("const_unit"@) {
        Some(Rule::const_unit)
    } else if name == ascii_of("const_bool"@) {
        Some(Rule::const_bool)
    } else if name == ascii_of("const_int"@) {
        Some(Rule::const_int)
    } else if name == ascii_of("const_float"@) {
        Some(Rule::const_float)
    } else if name == ascii_of("const_length"@) {
        Some(Rule::const_length)
    } else if name == ascii_of("const_string"@) {
        Some(Rule::const_string)
    } else if name == ascii_of("math_single"@) {
        Some(Rule::math_single)
    } else if name == ascii_of("math_list"@) {
        Some(Rule::math_list)
    } else if name == ascii_of("math_token"@) {
        Some(Rule::math_token)
    } else if name == ascii_of("math_sup"@) {
        Some(Rule::math_sup)
    } else if name == ascii_of("math_sub"@) {
        Some(Rule::math_sub)
    } else if name == ascii_of("math_unary"@) {
        Some(Rule::math_unary)
    } else if name == ascii_of("math_embedding"@) {
        Some(Rule::math_embedding)
    } else if name == ascii_of("dummy_header"@) {
        Some(Rule::dummy_header)
    } else if name == ascii_of("dummy_sig_stmt"@) {
        Some(Rule::dummy_sig_stmt)
    } else if name == ascii_of("dummy_stmt"@) {
        Some(Rule::dummy_stmt)
    } else if name == ascii_of("dummy_inline_cmd_incomplete"@) {
        Some(Rule::dummy_inline_cmd_incomplete)
    } else if name == ascii_of("dummy_block_cmd_incomplete"@) {
        Some(Rule::dummy_block_cmd_incomplete)
    } else if name == ascii_of("dummy_modvar_incomplete"@) {
        Some(Rule::dummy_modvar_incomplete)
    } else {
        None
    }
}

#[verifier::rlimit(100)]
pub fn rule_from_name(name: &Vec<u8>) -> (r: Option<Rule>)
    ensures
        r == spec_rule_of(name@),
        r matches Some(rule) ==> rule.name_bytes() == name@ && rule != Rule::comments,
{
    proof {
        reveal_strlit("misc");
        reveal_strlit("program_saty");
        reveal_strlit("program_satyh");
        reveal_strlit("preamble");
        reveal_strlit("stage");
        reveal_strlit("headers");
        reveal_strlit("header_require");
        reveal_strlit("header_import");
        reveal_strlit("pkgname");
        reveal_strlit("let_stmt");
        reveal_strlit("let_rec_stmt");
        reveal_strlit("let_rec_inner");
        reveal_strlit("let_rec_matcharm");
        reveal_strlit("let_inline_stmt_ctx");
        reveal_strlit("let_inline_stmt_noctx");
        reveal_strlit("let_block_stmt_ctx");
        reveal_strlit("let_block_stmt_noctx");
        reveal_strlit("let_math_stmt");
        reveal_strlit("let_mutable_stmt");
        reveal_strlit("type_stmt");
        reveal_strlit("type_inner");
        reveal_strlit("type_variant");
        reveal_strlit("module_stmt");
        reveal_strlit("open_stmt");
        reveal_strlit("arg");
        reveal_strlit("sig_stmt");
        reveal_strlit("struct_stmt");
        reveal_strlit("sig_type_stmt");
        reveal_strlit("sig_val_stmt");
        reveal_strlit("sig_direct_stmt");
        reveal_strlit("type_expr");
        reveal_strlit("type_optional");
        reveal_strlit("type_prod");
        reveal_strlit("type_inline_cmd");
        reveal_strlit("type_block_cmd");
        reveal_strlit("type_math_cmd");
        reveal_strlit("type_list_unit_optional");
        reveal_strlit("type_application");
        reveal_strlit("type_name");
        reveal_strlit("type_record");
        reveal_strlit("type_record_unit");
        reveal_strlit("type_param");
        reveal_strlit("constraint");
        reveal_strlit("pat_as");
        reveal_strlit("pat_cons");
        reveal_strlit("pattern");
        reveal_strlit("pat_variant");
        reveal_strlit("pat_list");
        reveal_strlit("pat_tuple");
        reveal_strlit("expr");
        reveal_strlit("match_expr");
        reveal_strlit("match_arm");
        reveal_strlit("match_guard");
        reveal_strlit("bind_stmt");
        reveal_strlit("ctrl_while");
        reveal_strlit("ctrl_if");
        reveal_strlit("lambda");
        reveal_strlit("assignment");
        reveal_strlit("dyadic_expr");
        reveal_strlit("unary_operator_expr");
        reveal_strlit("unary_operator");
        reveal_strlit("application");
        reveal_strlit("application_args_normal");
        reveal_strlit("application_args_optional");
        reveal_strlit("command_application");
        reveal_strlit("variant_constructor");
        reveal_strlit("unary");
        reveal_strlit("unary_prefix");
        reveal_strlit("block_text");
        reveal_strlit("horizontal_text");
        reveal_strlit("math_text");
        reveal_strlit("list");
        reveal_strlit("record");
        reveal_strlit("record_unit");
        reveal_strlit("tuple");
        reveal_strlit("bin_operator");
        reveal_strlit("expr_with_mod");
        reveal_strlit("var");
        reveal_strlit("var_ptn");
        reveal_strlit("modvar");
        reveal_strlit("mod_cmd_name");
        reveal_strlit("module_name");
        reveal_strlit("variant_name");
        reveal_strlit("cmd_name_ptn");
        reveal_strlit("cmd_expr_arg");
        reveal_strlit("cmd_expr_option");
        reveal_strlit("cmd_text_arg");
        reveal_strlit("inline_cmd");
        reveal_strlit("inline_cmd_name");
        reveal_strlit("block_cmd");
        reveal_strlit("block_cmd_name");
        reveal_strlit("math_cmd");
        reveal_strlit("math_cmd_name");
        reveal_strlit("math_cmd_expr_arg");
        reveal_strlit("math_cmd_expr_option");
        reveal_strlit("horizontal_single");
        reveal_strlit("horizontal_list");
        reveal_strlit("horizontal_bullet_list");
        reveal_strlit("horizontal_bullet");
        reveal_strlit("horizontal_bullet_star");
        reveal_strlit("regular_text");
        reveal_strlit("horizontal_escaped_char");
        reveal_strlit("inline_text_embedding");
        reveal_strlit("vertical");
        reveal_strlit("block_text_embedding");
        reveal_strlit("const_unit");
        reveal_strlit("const_bool");
        reveal_strlit("const_int");
        reveal_strlit("const_float");
        reveal_strlit("const_length");
        reveal_strlit("const_string");
        reveal_strlit("math_single");
        reveal_strlit("math_list");
        reveal_strlit("math_token");
        reveal_strlit("math_sup");
        reveal_strlit("math_sub");
        reveal_strlit("math_unary");
        reveal_strlit("math_embedding");
        reveal_strlit("dummy_header");
        reveal_strlit("dummy_sig_stmt");
        reveal_strlit("dummy_stmt");
        reveal_strlit("dummy_inline_cmd_incomplete");
        reveal_strlit("dummy_block_cmd_incomplete");
        reveal_strlit("dummy_modvar_incomplete");
    }
    if eq_bytes(name, &lit("misc")) {
        return Some(Rule::misc);
    }
    if eq_bytes(name, &lit("program_saty")) {
        return Some(Rule::program_saty);
    }
    if eq_bytes(name, &lit("program_satyh")) {
        return Some(Rule::program_satyh);
    }
    if eq_bytes(name, &lit("preamble")) {
        return Some(Rule::preamble);
    }
    if eq_bytes(name, &lit("stage")) {
        return Some(Rule::stage);
    }
    if eq_bytes(name, &lit("headers")) {
        return Some(Rule::headers);
    }
    if eq_bytes(name, &lit("header_require")) {
        return Some(Rule::header_require);
    }
    if eq_bytes(name, &lit("header_import")) {
        return Some(Rule::header_import);
    }
    if eq_bytes(name, &lit("pkgname")) {
        return Some(Rule::pkgname);
    }
    if eq_bytes(name, &lit("let_stmt")) {
        return Some(Rule::let_stmt);
    }
    if eq_bytes(name, &lit("let_rec_stmt")) {
        return Some(Rule::let_rec_stmt);
    }
    if eq_bytes(name, &lit("let_rec_inner")) {
        return Some(Rule::let_rec_inner);
    }
    if eq_bytes(name, &lit("let_rec_matcharm")) {
        return Some(Rule::let_rec_matcharm);
    }
    if eq_bytes(name, &lit("let_inline_stmt_ctx")) {
        return Some(Rule::let_inline_stmt_ctx);
    }
    if eq_bytes(name, &lit("let_inline_stmt_noctx")) {
        return Some(Rule::let_inline_stmt_noctx);
    }
    if eq_bytes(name, &lit("let_block_stmt_ctx")) {
        return Some(Rule::let_block_stmt_ctx);
    }
    if eq_bytes(name, &lit("let_block_stmt_noctx")) {
        return Some(Rule::let_block_stmt_noctx);
    }
    if eq_bytes(name, &lit("let_math_stmt")) {
        return Some(Rule::let_math_stmt);
    }
    if eq_bytes(name, &lit("let_mutable_stmt")) {
        return Some(Rule::let_mutable_stmt);
    }
    if eq_bytes(name, &lit("type_stmt")) {
        return Some(Rule::type_stmt);
    }
    if eq_bytes(name, &lit("type_inner")) {
        return Some(Rule::type_inner);
    }
    if eq_bytes(name, &lit("type_variant")) {
        return Some(Rule::type_variant);
    }
    if eq_bytes(name, &lit("module_stmt")) {
        return Some(Rule::module_stmt);
    }
    if eq_bytes(name, &lit("open_stmt")) {
        return Some(Rule::open_stmt);
    }
    if eq_bytes(name, &lit("arg")) {
        return Some(Rule::arg);
    }
    if eq_bytes(name, &lit("sig_stmt")) {
        return Some(Rule::sig_stmt);
    }
    if eq_bytes(name, &lit("struct_stmt")) {
        return Some(Rule::struct_stmt);
    }
    if eq_bytes(name, &lit("sig_type_stmt")) {
        return Some(Rule::sig_type_stmt);
    }
    if eq_bytes(name, &lit("sig_val_stmt")) {
        return Some(Rule::sig_val_stmt);
    }
    if eq_bytes(name, &lit("sig_direct_stmt")) {
        return Some(Rule::sig_direct_stmt);
    }
    if eq_bytes(name, &lit("type_expr")) {
        return Some(Rule::type_expr);
    }
    if eq_bytes(name, &lit("type_optional")) {
        return Some(Rule::type_optional);
    }
    if eq_bytes(name, &lit("type_prod")) {
        return Some(Rule::type_prod);
    }
    if eq_bytes(name, &lit("type_inline_cmd")) {
        return Some(Rule::type_inline_cmd);
    }
    if eq_bytes(name, &lit("type_block_cmd")) {
        return Some(Rule::type_block_cmd);
    }
    if eq_bytes(name, &lit("type_math_cmd")) {
        return Some(Rule::type_math_cmd);
    }
    if eq_bytes(name, &lit("type_list_unit_optional")) {
        return Some(Rule::type_list_unit_optional);
    }
    if eq_bytes(name, &lit("type_application")) {
        return Some(Rule::type_application);
    }
    if eq_bytes(name, &lit("type_name")) {
        return Some(Rule::typename);
    }
    if eq_bytes(name, &lit("type_record")) {
        return Some(Rule::type_record);
    }
    if eq_bytes(name, &lit("type_record_unit")) {
        return Some(Rule::type_record_unit);
    }
    if eq_bytes(name, &lit("type_param")) {
        return Some(Rule::type_param);
    }
    if eq_bytes(name, &lit("constraint")) {
        return Some(Rule::constraint);
    }
    if eq_bytes(name, &lit("pat_as")) {
        return Some(Rule::pat_as);
    }
    if eq_bytes(name, &lit("pat_cons")) {
        return Some(Rule::pat_cons);
    }
    if eq_bytes(name, &lit("pattern")) {
        return Some(Rule::pattern);
    }
    if eq_bytes(name, &lit("pat_variant")) {
        return Some(Rule::pat_variant);
    }
    if eq_bytes(name, &lit("pat_list")) {
        return Some(Rule::pat_list);
    }
    if eq_bytes(name, &lit("pat_tuple")) {
        return Some(Rule::pat_tuple);
    }
    if eq_bytes(name, &lit("expr")) {
        return Some(Rule::expr);
    }
    if eq_bytes(name, &lit("match_expr")) {
        return Some(Rule::match_expr);
    }
    if eq_bytes(name, &lit("match_arm")) {
        return Some(Rule::match_arm);
    }
    if eq_bytes(name, &lit("match_guard")) {
        return Some(Rule::match_guard);
    }
    if eq_bytes(name, &lit("bind_stmt")) {
        return Some(Rule::bind_stmt);
    }
    if eq_bytes(name, &lit("ctrl_while")) {
        return Some(Rule::ctrl_while);
    }
    if eq_bytes(name, &lit("ctrl_if")) {
        return Some(Rule::ctrl_if);
    }
    if eq_bytes(name, &lit("lambda")) {
        return Some(Rule::lambda);
    }
    if eq_bytes(name, &lit("assignment")) {
        return Some(Rule::assignment);
    }
    if eq_bytes(name, &lit("dyadic_expr")) {
        return Some(Rule::dyadic_expr);
    }
    if eq_bytes(name, &lit("unary_operator_expr")) {
        return Some(Rule::unary_operator_expr);
    }
    if eq_bytes(name, &lit("unary_operator")) {
        return Some(Rule::unary_operator);
    }
    if eq_bytes(name, &lit("application")) {
        return Some(Rule::application);
    }
    if eq_bytes(name, &lit("application_args_normal")) {
        return Some(Rule::application_args_normal);
    }
    if eq_bytes(name, &lit("application_args_optional")) {
        return Some(Rule::application_args_optional);
    }
    if eq_bytes(name, &lit("command_application")) {
        return Some(Rule::command_application);
    }
    if eq_bytes(name, &lit("variant_constructor")) {
        return Some(Rule::variant_constructor);
    }
    if eq_bytes(name, &lit("unary")) {
        return Some(Rule::unary);
    }
    if eq_bytes(name, &lit("unary_prefix")) {
        return Some(Rule::unary_prefix);
    }
    if eq_bytes(name, &lit("block_text")) {
        return Some(Rule::block_text);
    }
    if eq_bytes(name, &lit("horizontal_text")) {
        return Some(Rule::horizontal_text);
    }
    if eq_bytes(name, &lit("math_text")) {
        return Some(Rule::math_text);
    }
    if eq_bytes(name, &lit("list")) {
        return Some(Rule::list);
    }
    if eq_bytes(name, &lit("record")) {
        return Some(Rule::record);
    }
    if eq_bytes(name, &lit("record_unit")) {
        return Some(Rule::record_unit);
    }
    if eq_bytes(name, &lit("tuple")) {
        return Some(Rule::tuple);
    }
    if eq_bytes(name, &lit("bin_operator")) {
        return Some(Rule::bin_operator);
    }
    if eq_bytes(name, &lit("expr_with_mod")) {
        return Some(Rule::expr_with_mod);
    }
    if eq_bytes(name, &lit("var")) {
        return Some(Rule::var);
    }
    if eq_bytes(name, &lit("var_ptn")) {
        return Some(Rule::var_ptn);
    }
    if eq_bytes(name, &lit("modvar")) {
        return Some(Rule::modvar);
    }
    if eq_bytes(name, &lit("mod_cmd_name")) {
        return Some(Rule::mod_cmd_name);
    }
    if eq_bytes(name, &lit("module_name")) {
        return Some(Rule::module_name);
    }
    if eq_bytes(name, &lit("variant_name")) {
        return Some(Rule::variant_name);
    }
    if eq_bytes(name, &lit("cmd_name_ptn")) {
        return Some(Rule::cmd_name_ptn);
    }
    if eq_bytes(name, &lit("cmd_expr_arg")) {
        return Some(Rule::cmd_expr_arg);
    }
    if eq_bytes(name, &lit("cmd_expr_option")) {
        return Some(Rule::cmd_expr_option);
    }
    if eq_bytes(name, &lit("cmd_text_arg")) {
        return Some(Rule::cmd_text_arg);
    }
    if eq_bytes(name, &lit("inline_cmd")) {
        return Some(Rule::inline_cmd);
    }
    if eq_bytes(name, &lit("inline_cmd_name")) {
        return Some(Rule::inline_cmd_name);
    }
    if eq_bytes(name, &lit("block_cmd")) {
        return Some(Rule::block_cmd);
    }
    if eq_bytes(name, &lit("block_cmd_name")) {
        return Some(Rule::block_cmd_name);
    }
    if eq_bytes(name, &lit("math_cmd")) {
        return Some(Rule::math_cmd);
    }
    if eq_bytes(name, &lit("math_cmd_name")) {
        return Some(Rule::math_cmd_name);
    }
    if eq_bytes(name, &lit("math_cmd_expr_arg")) {
        return Some(Rule::math_cmd_expr_arg);
    }
    if eq_bytes(name, &lit("math_cmd_expr_option")) {
        return Some(Rule::math_cmd_expr_option);
    }
    if eq_bytes(name, &lit("horizontal_single")) {
        return Some(Rule::horizontal_single);
    }
    if eq_bytes(name, &lit("horizontal_list")) {
        return Some(Rule::horizontal_list);
    }
    if eq_bytes(name, &lit("horizontal_bullet_list")) {
        return Some(Rule::horizontal_bullet_list);
    }
    if eq_bytes(name, &lit("horizontal_bullet")) {
        return Some(Rule::horizontal_bullet);
    }
    if eq_bytes(name, &lit("horizontal_bullet_star")) {
        return Some(Rule::horizontal_bullet_star);
    }
    if eq_bytes(name, &lit("regular_text")) {
        return Some(Rule::regular_text);
    }
    if eq_bytes(name, &lit("horizontal_escaped_char")) {
        return Some(Rule::horizontal_escaped_char);
    }
    if eq_bytes(name, &lit("inline_text_embedding")) {
        return Some(Rule::inline_text_embedding);
    }
    if eq_bytes(name, &lit("vertical")) {
        return Some(Rule::vertical);
    }
    if eq_bytes(name, &lit("block_text_embedding")) {
        return Some(Rule::block_text_embedding);
    }
    if eq_bytes(name, &lit("const_unit")) {
        return Some(Rule::const_unit);
    }
    if eq_bytes(name, &lit("const_bool")) {
        return Some(Rule::const_bool);
    }
    if eq_bytes(name, &lit("const_int")) {
        return Some(Rule::const_int);
    }
    if eq_bytes(name, &lit("const_float")) {
        return Some(Rule::const_float);
    }
    if eq_bytes(name, &lit("const_length")) {
        return Some(Rule::const_length);
    }
    if eq_bytes(name, &lit("const_string")) {
        return Some(Rule::const_string);
    }
    if eq_bytes(name, &lit("math_single")) {
        return Some(Rule::math_single);
    }
    if eq_bytes(name, &lit("math_list")) {
        return Some(Rule::math_list);
    }
    if eq_bytes(name, &lit("math_token")) {
        return Some(Rule::math_token);
    }
    if eq_bytes(name, &lit("math_sup")) {
        return Some(Rule::math_sup);
    }
    if eq_bytes(name, &lit("math_sub")) {
        return Some(Rule::math_sub);
    }
    if eq_bytes(name, &lit("math_unary")) {
        return Some(Rule::math_unary);
    }
    if eq_bytes(name, &lit("math_embedding")) {
        return Some(Rule::math_embedding);
    }
    if eq_bytes(name, &lit("dummy_header")) {
        return Some(Rule::dummy_header);
    }
    if eq_bytes(name, &lit("dummy_sig_stmt")) {
        return Some(Rule::dummy_sig_stmt);
    }
    if eq_bytes(name, &lit("dummy_stmt")) {
        return Some(Rule::dummy_stmt);
    }
    if eq_bytes(name, &lit("dummy_inline_cmd_incomplete")) {
        return Some(Rule::dummy_inline_cmd_incomplete);
    }
    if eq_bytes(name, &lit("dummy_block_cmd_incomplete")) {
        return Some(Rule::dummy_block_cmd_incomplete);
    }
    if eq_bytes(name, &lit("dummy_modvar_incomplete")) {
        return Some(Rule::dummy_modvar_incomplete);
    }
    None
}

} // verus!

verus! {

/// One node of the flat, depth-first pre-order dump the external parser's
/// tree is handed over as: the grammar-rule name, the byte span, and how
/// many direct children follow.
pub struct RawNode {
    pub name: Vec<u8>,
    pub start: usize,
    pub end: usize,
    pub n_inner: usize,
}

/// Mathematical shape of one dump entry.
pub struct RawNodeView {
    pub name: Seq<u8>,
    pub start: int,
    pub end: int,
    pub n_inner: int,
}

impl View for RawNode {
    type V = RawNodeView;

    open spec fn view(&self) -> RawNodeView {
        RawNodeView {
            name: self.name@,
            start: self.start as int,
            end: self.end as int,
            n_inner: self.n_inner as int,
        }
    }
}

/// The views of a dump.
pub open spec fn raw_views_of(s: Seq<RawNode>) -> Seq<RawNodeView> {
    s.map_values(|n: RawNode| n@)
}

pub proof fn lemma_raw_views(s: Seq<RawNode>)
    ensures
        raw_views_of(s).len() == s.len(),
        forall|i: int| 0 <= i < s.len() ==> raw_views_of(s)[i] == (#[trigger] s[i])@,
{
}

/// Decodes the node starting at `pos` of the dump, for a text of `tlen`
/// bytes: the decoded node and the position just after its subtree, or
/// nothing when the dump is not a valid serialization there.  `fuel` bounds
/// the nesting depth; any value above the entries left is enough, since
/// every level consumes at least one entry.
pub open spec fn spec_build_node(flat: Seq<RawNodeView>, pos: int, tlen: int, fuel: nat) -> Option<
    (CstView, int),
>
    decreases fuel, 0int, 0int,
{
    if fuel == 0 || pos < 0 || pos >= flat.len() {
        None
    } else {
        let h = flat[pos];
        match spec_rule_of(h.name) {
            Option::None => None,
            Option::Some(rule) => {
                if rule.is_dummy() || !(h.start <= h.end && h.end <= tlen) || (rule.needs_text()
                    && !(h.start < h.end)) {
                    None
                } else {
                    match spec_build_kids(flat, pos + 1, tlen, (fuel - 1) as nat, h.n_inner) {
                        Option::None => None,
                        Option::Some(pair) => Some(
                            (CstView { rule, start: h.start, end: h.end, inner: pair.0 }, pair.1),
                        ),
                    }
                }
            },
        }
    }
}

/// Decodes `count` consecutive sibling subtrees from `pos` on.
pub open spec fn spec_build_kids(
    flat: Seq<RawNodeView>,
    pos: int,
    tlen: int,
    fuel: nat,
    count: int,
) -> Option<(Seq<CstView>, int)>
    decreases fuel, 1int, count,
{
    if count <= 0 {
        Some((Seq::empty(), pos))
    } else {
        match spec_build_node(flat, pos, tlen, fuel) {
            Option::None => None,
            Option::Some(pair) => {
                match spec_build_kids(flat, pair.1, tlen, fuel, count - 1) {
                    Option::None => None,
                    Option::Some(rest) => Some((seq![pair.0] + rest.0, rest.1)),
                }
            },
        }
    }
}

/// The tree a dump denotes: its one root subtree, which must consume the
/// dump exactly.
pub open spec fn spec_build(flat: Seq<RawNodeView>, tlen: int) -> Option<CstView> {
    match spec_build_node(flat, 0, tlen, (flat.len() + 1) as nat) {
        Option::Some(pair) => if pair.1 == flat.len() {
            Some(pair.0)
        } else {
            None
        },
        Option::None => None,
    }
}

/// A decoded subtree sits strictly between its start position and the end
/// of the dump.
pub proof fn lemma_build_node_pos(flat: Seq<RawNodeView>, pos: int, tlen: int, fuel: nat)
    ensures
        spec_build_node(flat, pos, tlen, fuel) matches Some(pair) ==> pos + 1 <= pair.1
            <= flat.len(),
    decreases fuel, 0int, 0int,
{
    if !(fuel == 0 || pos < 0 || pos >= flat.len()) {
        let h = flat[pos];
        if spec_rule_of(h.name) is Some {
            lemma_build_kids_pos(flat, pos + 1, tlen, (fuel - 1) as nat, h.n_inner);
        }
    }
}

pub proof fn lemma_build_kids_pos(flat: Seq<RawNodeView>, pos: int, tlen: int, fuel: nat, count: int)
    requires
        0 <= pos <= flat.len(),
    ensures
        spec_build_kids(flat, pos, tlen, fuel, count) matches Some(pair) ==> pos <= pair.1
            <= flat.len(),
    decreases fuel, 1int, count,
{
    if count > 0 {
        lemma_build_node_pos(flat, pos, tlen, fuel);
        if spec_build_node(flat, pos, tlen, fuel) is Some {
            let pair = spec_build_node(flat, pos, tlen, fuel)->0;
            lemma_build_kids_pos(flat, pair.1, tlen, fuel, count - 1);
        }
    }
}

/// Any fuel above the entries left decodes the same: the depth of a subtree
/// never exceeds the entries it consumes.
pub proof fn lemma_build_node_fuel(flat: Seq<RawNodeView>, pos: int, tlen: int, f1: nat, f2: nat)
    requires
        f1 > flat.len() - pos,
        f2 > flat.len() - pos,
    ensures
        spec_build_node(flat, pos, tlen, f1) == spec_build_node(flat, pos, tlen, f2),
    decreases f1 + f2, 0int, 0int,
{
    if !(pos < 0 || pos >= flat.len()) {
        let h = flat[pos];
        if spec_rule_of(h.name) is Some {
            lemma_build_kids_fuel(
                flat,
                pos + 1,
                tlen,
                (f1 - 1) as nat,
                (f2 - 1) as nat,
                h.n_inner,
            );
        }
    }
}

pub proof fn lemma_build_kids_fuel(
    flat: Seq<RawNodeView>,
    pos: int,
    tlen: int,
    f1: nat,
    f2: nat,
    count: int,
)
    requires
        0 <= pos,
        f1 > flat.len() - pos,
        f2 > flat.len() - pos,
    ensures
        spec_build_kids(flat, pos, tlen, f1, count) == spec_build_kids(flat, pos, tlen, f2, count),
    decreases f1 + f2, 1int, count,
{
    if count > 0 {
        lemma_build_node_fuel(flat, pos, tlen, f1, f2);
        lemma_build_node_pos(flat, pos, tlen, f1);
        if spec_build_node(flat, pos, tlen, f1) is Some {
            let pair = spec_build_node(flat, pos, tlen, f1)->0;
            lemma_build_kids_fuel(flat, pair.1, tlen, f1, f2, count - 1);
        }
    }
}

/// Rebuilds one node (and its subtree) from the flat dump, advancing `pos`;
/// returns exactly what the dump denotes there (`spec_build_node`), failing
/// on an unknown or error-recovery rule name, an out-of-range or unordered
/// span, or a truncated dump.
pub fn build_node(flat: &Vec<RawNode>, pos: &mut usize, text_len: usize) -> (r: Option<CstNode>)
    requires
        *old(pos) <= flat@.len(),
    ensures
        *old(pos) <= *final(pos) <= flat@.len(),
        match r {
            Some(c) => spec_build_node(
                raw_views_of(flat@),
                *old(pos) as int,
                text_len as int,
                (flat@.len() - *old(pos) + 1) as nat,
            ) == Some((c@, *final(pos) as int)),
            None => spec_build_node(
                raw_views_of(flat@),
                *old(pos) as int,
                text_len as int,
                (flat@.len() - *old(pos) + 1) as nat,
            ) is None,
        },
        r matches Some(c) ==> c@.wf(text_len as int) && *final(pos) > *old(pos),
    decreases flat@.len() - *old(pos),
{
    let ghost fv = raw_views_of(flat@);
    let ghost tlen = text_len as int;
    proof {
        lemma_raw_views(flat@);
    }
    let n = flat.len();
    if *pos >= n {
        return None;
    }
    let at: usize = *pos;
    let ghost fuel0 = (flat@.len() - at + 1) as nat;
    let ghost fsub = (flat@.len() - at) as nat;
    proof {
        assert(fv[at as int] == flat@[at as int]@);
        assert(fv[at as int].name == flat@[at as int].name@);
    }
    let node = &flat[at];
    proof {
        assert(*node == flat@[at as int]);
    }
    let rule_opt = rule_from_name(&node.name);
    proof {
        assert(rule_opt == spec_rule_of(node.name@));
        assert(rule_opt == spec_rule_of(fv[at as int].name));
    }
    let rule = match rule_opt {
        Some(rl) => rl,
        None => {
            return None;
        },
    };
    let start = flat[at].start;
    let end = flat[at].end;
    let n_inner = flat[at].n_inner;
    proof {
        assert(fv[at as int].start == start as int);
        assert(fv[at as int].end == end as int);
        assert(fv[at as int].n_inner == n_inner as int);
    }
    *pos = at + 1;
    if rule.is_dummy_rule() {
        return None;
    }
    if !(start <= end && end <= text_len) {
        return None;
    }
    if rule.needs_text_rule() && !(start < end) {
        return None;
    }
    let mut kids: Vec<CstNode> = Vec::new();
    let mut k: usize = 0;
    while k < n_inner
        invariant
            at == *old(pos),
            at < *pos <= flat@.len(),
            0 <= k <= n_inner,
            fv == raw_views_of(flat@),
            tlen == text_len as int,
            fuel0 == (flat@.len() - at + 1) as nat,
            fsub == (flat@.len() - at) as nat,
            fsub == (fuel0 - 1) as nat,
            at < flat@.len(),
            spec_rule_of(fv[at as int].name) == Some(rule),
            !rule.is_dummy(),
            fv[at as int].start == start as int,
            fv[at as int].end == end as int,
            fv[at as int].n_inner == n_inner as int,
            start <= end && end as int <= tlen,
            rule.needs_text() ==> start < end,
            forall|j: int| 0 <= j < kids@.len() ==> (#[trigger] kids@[j])@.wf(text_len as int),
            spec_build_kids(fv, at + 1, tlen, fsub, n_inner as int) == (
            match spec_build_kids(fv, *pos as int, tlen, fsub, n_inner - k) {
                Option::None => None,
                Option::Some(rest) => Some(
                    (crate::comment::cst_views_of(kids@) + rest.0, rest.1),
                ),
            }),
        decreases n_inner - k,
    {
        let ghost pb = *pos as int;
        let ghost prevkids = kids@;
        match build_node(flat, pos, text_len) {
            Some(c) => {
                proof {
                    let fc = (flat@.len() - pb + 1) as nat;
                    lemma_build_node_fuel(fv, pb, tlen, fc, fsub);
                    crate::comment::lemma_cst_views(prevkids);
                    crate::comment::lemma_cst_views(prevkids.push(c));
                    assert(crate::comment::cst_views_of(prevkids.push(c))
                        =~= crate::comment::cst_views_of(prevkids) + seq![c@]);
                }
                kids.push(c);
                k += 1;
                proof {
                    if spec_build_kids(fv, *pos as int, tlen, fsub, n_inner - k) is Some {
                        let rest = spec_build_kids(fv, *pos as int, tlen, fsub, n_inner - k)->0;
                        assert((crate::comment::cst_views_of(prevkids) + seq![c@]) + rest.0
                            =~= crate::comment::cst_views_of(prevkids) + (seq![c@] + rest.0));
                    }
                }
            },
            None => {
                proof {
                    let fc = (flat@.len() - pb + 1) as nat;
                    lemma_build_node_fuel(fv, pb, tlen, fc, fsub);
                }
                return None;
            },
        }
    }
    let c = CstNode { rule, span: Span { start, end }, inner: kids };
    proof {
        lemma_view(c);
        assert forall|j: int| 0 <= j < c@.inner.len() implies (#[trigger] c@.inner[j]).wf(
            text_len as int,
        ) by {
            assert(c@.inner[j] == c.inner@[j]@);
        }
        crate::comment::lemma_cst_views(c.inner@);
        assert(c@.inner =~= crate::comment::cst_views_of(c.inner@));
        assert(spec_build_kids(fv, *pos as int, tlen, fsub, 0) == Some(
            (Seq::<CstView>::empty(), *pos as int),
        ));
        if spec_build_kids(fv, at + 1, tlen, fsub, n_inner as int) is Some {
            let all = spec_build_kids(fv, at + 1, tlen, fsub, n_inner as int)->0;
            assert(crate::comment::cst_views_of(c.inner@) + Seq::<CstView>::empty()
                =~= crate::comment::cst_views_of(c.inner@));
            assert(c@ == CstView { rule, start: start as int, end: end as int, inner: all.0 });
        }
    }
    Some(c)
}

/// Rebuilds the whole tree from the flat dump: exactly the tree the dump
/// denotes (`spec_build`), which must consume the dump exactly.
pub fn build_tree(flat: &Vec<RawNode>, text_len: usize) -> (r: Option<CstNode>)
    ensures
        match r {
            Some(c) => spec_build(raw_views_of(flat@), text_len as int) == Some(c@) && c@.wf(
                text_len as int,
            ),
            None => spec_build(raw_views_of(flat@), text_len as int) is None,
        },
{
    proof {
        lemma_raw_views(flat@);
    }
    let mut pos: usize = 0;
    match build_node(flat, &mut pos, text_len) {
        Some(c) => {
            if pos == flat.len() {
                Some(c)
            } else {
                None
            }
        },
        None => None,
    }
}

} // verus!
