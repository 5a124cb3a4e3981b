//! The layout renderer: one recursive dispatch over the node kinds that
//! turns a tree (comments already attached) into canonical text.  Each node
//! is rendered bottom-up: the children are joined with a kind-dependent
//! separator (`to_string_cst_inner`), then the node adds its own decoration
//! and decides single-line versus multi-line (`to_string_cst`).
//!
//! The spec functions `s_cst` / `s_inner` / `s_fold` are the mathematical
//! mirror of the renderer; the executable methods return exactly their
//! value.

use vstd::prelude::*;

use crate::bytes::{
    ascii_of, first_byte, is_ws, last_byte, spec_find, spec_join, spec_keep, spec_map_trim,
    spec_remove_ws, spec_repeat, spec_split, spec_split_ws, spec_trim, spec_trim_end,
    spec_trim_start, B_COMMA, B_LBRACE, B_LPAREN, B_LT, B_NL, B_PERCENT, B_SEMI, B_SP,
};
use crate::config::OptionData;
use crate::cst::{CstNode, CstView, Rule};

verus! {

/// The number of spaces that `depth` levels of indentation take, saturated
/// at the machine limit (unreachable for any real document).
pub open spec fn iw(unit: int, depth: int) -> int {
    if unit * depth > usize::MAX as int {
        usize::MAX as int
    } else if unit * depth < 0 {
        0
    } else {
        unit * depth
    }
}

/// The indentation for `depth` levels.
pub open spec fn ind(o: OptionData, depth: int) -> Seq<u8> {
    spec_repeat(B_SP, iw(o.indent_space as int, depth))
}

/// A line break followed by the indentation for `depth` levels.
pub open spec fn nl_ind(o: OptionData, depth: int) -> Seq<u8> {
    seq![B_NL] + ind(o, depth)
}

/// One depth level deeper, saturated at the machine limit.
pub open spec fn bump(depth: int) -> int {
    if depth >= usize::MAX as int {
        depth
    } else {
        depth + 1
    }
}

/// The kinds that indent their direct children one level deeper.
pub open spec fn new_depth_of(rule: Rule, depth: int) -> int {
    match rule {
        Rule::block_text => bump(depth),
        Rule::cmd_text_arg => bump(depth),
        Rule::record => bump(depth),
        Rule::type_record => bump(depth),
        Rule::list => bump(depth),
        Rule::type_block_cmd => bump(depth),
        Rule::type_inline_cmd => bump(depth),
        Rule::math_cmd => bump(depth),
        Rule::match_expr => bump(depth),
        Rule::let_rec_matcharm => bump(depth),
        Rule::let_rec_inner => bump(depth),
        Rule::sig_stmt => bump(depth),
        Rule::struct_stmt => bump(depth),
        _ => depth,
    }
}

/// The child separator of the kinds that the generic joining step handles.
pub open spec fn sep_of(o: OptionData, rule: Rule, depth: int) -> Seq<u8> {
    match rule {
        Rule::type_prod => ascii_of(" * "@),
        Rule::type_optional => ascii_of(" ?-> "@),
        Rule::tuple => ascii_of(", "@),
        Rule::type_block_cmd => ascii_of(";"@) + nl_ind(o, depth),
        Rule::type_inline_cmd => ascii_of(";"@) + nl_ind(o, depth),
        Rule::type_math_cmd => ascii_of(";"@) + nl_ind(o, depth),
        Rule::horizontal_bullet_list => nl_ind(o, depth),
        _ => seq![B_SP],
    }
}

/// Whether a byte counts as alphabetic for the math-mode joining heuristic
/// (ASCII letters, and every non-ASCII byte, since those come from letters).
pub open spec fn is_alpha(b: u8) -> bool {
    (65 <= b <= 90) || (97 <= b <= 122) || b >= 128
}

/// The extra running state some joining folds carry: whether a type
/// annotation was seen (`let-rec` arguments) and how many branch
/// expressions were emitted (`if`, `while`).
pub ghost struct FoldSt {
    pub flag: bool,
    pub cnt: int,
}

/// The accumulator after joining child `i` onto `acc`.
pub open spec fn step_acc(
    t: Seq<u8>,
    o: OptionData,
    c: CstView,
    depth: int,
    i: int,
    acc: Seq<u8>,
    st: FoldSt,
) -> Seq<u8>
    decreases c, 0int, 0int,
{
    if i < 0 || i >= c.inner.len() {
        acc
    } else {
    let ch = c.inner[i];
    let s = s_cst(t, o, ch, depth);
    let newline = nl_ind(o, depth);
    let one = ind(o, 1);
    match c.rule {
        Rule::variant_constructor => {
            if acc.len() == 0 {
                s
            } else if !(ch.rule == Rule::unary && first_byte(s) == B_LPAREN) {
                acc + seq![B_SP] + s
            } else {
                acc + s
            }
        },
        Rule::let_mutable_stmt => {
            if acc.len() == 0 {
                s
            } else {
                match ch.rule {
                    Rule::var => acc + seq![B_SP] + s,
                    Rule::expr => {
                        if s.contains(B_NL) {
                            let s2 = s_cst(t, o, ch, bump(depth));
                            acc + ascii_of(" <-"@) + newline + one + spec_trim_start(s2)
                        } else {
                            acc + ascii_of(" <- "@) + s
                        }
                    },
                    Rule::comments => acc + s,
                    _ => acc + s,
                }
            }
        },
        Rule::let_block_stmt_ctx
        | Rule::let_block_stmt_noctx
        | Rule::let_inline_stmt_ctx
        | Rule::let_inline_stmt_noctx
        | Rule::let_stmt
        | Rule::let_rec_stmt
        | Rule::sig_val_stmt
        | Rule::sig_direct_stmt
        | Rule::type_stmt
        | Rule::let_math_stmt => {
            let s1 = if c.rule == Rule::sig_val_stmt && ch.rule == Rule::bin_operator {
                ascii_of("("@) + s + ascii_of(")"@)
            } else {
                s
            };
            if acc.len() == 0 {
                s1
            } else {
                match ch.rule {
                    Rule::var => acc + seq![B_SP] + s1,
                    Rule::block_cmd_name => acc + seq![B_SP] + s1,
                    Rule::bin_operator => acc + ascii_of(" ("@) + s1 + ascii_of(")"@),
                    Rule::type_expr => acc + ascii_of(": "@) + s1,
                    Rule::constraint => {
                        let s2 = s_cst(t, o, ch, bump(depth));
                        acc + newline + one + s2
                    },
                    Rule::expr => {
                        if i > 0 && c.inner[i - 1].rule == Rule::comments {
                            let s2 = s_cst(t, o, ch, bump(depth));
                            acc + s2
                        } else if ascii_of("let"@).is_prefix_of(s1) || (!ascii_of(
                            "'<"@,
                        ).is_prefix_of(s1) && !ascii_of("{"@).is_prefix_of(s1)) && s1.contains(
                            B_NL,
                        ) {
                            let s2 = s_cst(t, o, ch, bump(depth));
                            acc + ascii_of(" ="@) + newline + one + spec_trim_start(s2)
                        } else {
                            acc + ascii_of(" = "@) + s1
                        }
                    },
                    Rule::comments => {
                        if i + 1 < c.inner.len() && c.inner[i + 1].rule == Rule::expr {
                            let s2 = s_cst(t, o, ch, bump(depth));
                            acc + ascii_of(" ="@) + newline + one + s2
                        } else {
                            acc + s1
                        }
                    },
                    _ => acc + seq![B_SP] + s1,
                }
            }
        },
        Rule::math_cmd_expr_arg | Rule::math_cmd_expr_option => {
            match ch.rule {
                Rule::math_list | Rule::math_single => acc + ascii_of("{ "@) + s + ascii_of(" }"@),
                Rule::horizontal_list | Rule::horizontal_bullet_list | Rule::horizontal_single => {
                    acc + ascii_of("!{ "@) + s + ascii_of(" }"@)
                },
                Rule::vertical => acc + ascii_of("!"@) + s,
                Rule::expr => acc + ascii_of("!("@) + s + ascii_of(")"@),
                Rule::record | Rule::list => acc + ascii_of("!"@) + s,
                Rule::comments => acc + s,
                _ => acc + s,
            }
        },
        Rule::cmd_expr_option => {
            let s1 = if ch.rule == Rule::expr {
                ascii_of("("@) + s + ascii_of(")"@)
            } else {
                s
            };
            if acc.len() == 0 {
                s1
            } else {
                match ch.rule {
                    Rule::expr => acc + s1,
                    _ => acc + seq![B_SP] + s1,
                }
            }
        },
        Rule::pat_cons => {
            if acc.len() == 0 {
                s
            } else {
                match ch.rule {
                    Rule::pattern => {
                        if first_byte(s) == B_LPAREN {
                            acc + s
                        } else {
                            acc + seq![B_SP] + s
                        }
                    },
                    Rule::pat_variant => acc + seq![B_SP] + s,
                    Rule::pat_as => acc + ascii_of(" :: "@) + s,
                    Rule::comments => acc + newline + s,
                    _ => acc + s,
                }
            }
        },
        Rule::pat_variant => {
            if acc.len() == 0 {
                s
            } else {
                match ch.rule {
                    Rule::pattern => {
                        if first_byte(s) == B_LPAREN {
                            acc + s
                        } else {
                            acc + seq![B_SP] + s
                        }
                    },
                    Rule::variant_name => acc + seq![B_SP] + s,
                    Rule::comments => acc + newline + s,
                    _ => acc + s,
                }
            }
        },
        Rule::constraint => {
            if acc.len() == 0 {
                s
            } else {
                match ch.rule {
                    Rule::type_param => acc + seq![B_SP] + s,
                    Rule::type_record => acc + ascii_of(" :: "@) + s,
                    Rule::comments => acc + newline + s,
                    _ => acc + s,
                }
            }
        },
        Rule::record | Rule::type_record => {
            let s1 = if ch.rule == Rule::unary {
                s + ascii_of(" with "@)
            } else if ch.rule == Rule::record_unit || ch.rule == Rule::type_record_unit {
                s + ascii_of(";"@)
            } else {
                s
            };
            let acc2 = acc + s1;
            if ch.rule == Rule::unary {
                acc2
            } else {
                let has_next = i + 1 < c.inner.len();
                if has_next && ch.rule != Rule::comments && c.inner[i + 1].rule == Rule::comments {
                    acc2 + newline
                } else if has_next && (c.inner[i + 1].rule == Rule::record_unit || c.inner[i
                    + 1].rule == Rule::type_record_unit) {
                    acc2 + newline
                } else if !has_next && ch.rule == Rule::comments {
                    spec_trim_end(acc2)
                } else {
                    acc2
                }
            }
        },
        Rule::type_inner => {
            let s1 = if ch.rule == Rule::typename {
                s + ascii_of(" = "@)
            } else {
                s
            };
            if acc.len() == 0 {
                s1
            } else {
                match ch.rule {
                    Rule::type_param => acc + s1,
                    Rule::typename => acc + seq![B_SP] + s1,
                    Rule::type_variant => acc + ascii_of(" | "@) + s1,
                    _ => acc + s1,
                }
            }
        },
        Rule::type_variant => {
            if acc.len() == 0 {
                s
            } else {
                match ch.rule {
                    Rule::variant_name => acc + s,
                    Rule::type_expr => acc + ascii_of(" of "@) + s,
                    _ => acc + s,
                }
            }
        },
        Rule::let_rec_inner => {
            if acc.len() == 0 {
                s
            } else {
                match ch.rule {
                    Rule::pattern => acc + s,
                    Rule::let_rec_matcharm => acc + newline + ascii_of("| "@) + spec_trim(s),
                    Rule::type_expr => acc + ascii_of(": "@) + s,
                    Rule::arg => {
                        if st.flag {
                            acc + ascii_of(" | "@) + s
                        } else {
                            acc + seq![B_SP] + s
                        }
                    },
                    Rule::expr => acc + ascii_of(" = "@) + s,
                    _ => acc + s,
                }
            }
        },
        Rule::let_rec_matcharm => {
            if acc.len() == 0 {
                s
            } else {
                match ch.rule {
                    Rule::arg => acc + seq![B_SP] + s,
                    Rule::expr => acc + ascii_of(" = "@) + s,
                    _ => acc + s,
                }
            }
        },
        Rule::match_arm => {
            if acc.len() == 0 {
                s
            } else {
                match ch.rule {
                    Rule::pat_as => acc + seq![B_SP] + s,
                    Rule::match_guard => acc + seq![B_SP] + s,
                    Rule::expr => acc + ascii_of(" -> "@) + s,
                    _ => acc + s,
                }
            }
        },
        Rule::match_expr => {
            if acc.len() == 0 {
                if ch.rule == Rule::expr {
                    ascii_of("match "@) + s + ascii_of(" with"@)
                } else {
                    s
                }
            } else {
                match ch.rule {
                    Rule::expr => acc + ascii_of(" match "@) + s + ascii_of(" with"@),
                    Rule::match_arm => acc + newline + ascii_of("| "@) + s,
                    _ => acc + s,
                }
            }
        },
        Rule::ctrl_if => {
            match ch.rule {
                Rule::expr => {
                    if st.cnt == 0 {
                        acc + ascii_of("if "@) + s
                    } else if st.cnt == 1 {
                        acc + ascii_of(" then "@) + s
                    } else if st.cnt == 2 {
                        acc + ascii_of(" else "@) + s
                    } else {
                        acc + s
                    }
                },
                Rule::comments => acc + s,
                _ => acc + s,
            }
        },
        Rule::ctrl_while => {
            match ch.rule {
                Rule::expr => {
                    if st.cnt == 0 {
                        acc + ascii_of("while "@) + s
                    } else if st.cnt == 1 {
                        acc + ascii_of(" do "@) + s
                    } else {
                        acc + s
                    }
                },
                Rule::comments => acc + s,
                _ => acc + s,
            }
        },
        Rule::unary => {
            let s1 = if ch.rule == Rule::bin_operator || ch.rule == Rule::expr {
                ascii_of("("@) + s + ascii_of(")"@)
            } else {
                s
            };
            if acc.len() == 0 {
                s1
            } else if acc == ascii_of("!"@) || acc == ascii_of("&"@) || acc == ascii_of("~"@) {
                acc + s1
            } else {
                match ch.rule {
                    Rule::bin_operator | Rule::expr => acc + s1,
                    _ => acc + ascii_of("#"@) + s1,
                }
            }
        },
        Rule::lambda => {
            match ch.rule {
                Rule::pattern => acc + seq![B_SP] + s,
                Rule::comments => acc + s,
                _ => acc + ascii_of(" -> "@) + s,
            }
        },
        Rule::record_unit => {
            if acc.len() == 0 {
                s
            } else {
                match ch.rule {
                    Rule::var_ptn => acc + seq![B_SP] + s,
                    Rule::expr => acc + ascii_of(" = "@) + s,
                    Rule::comments => acc + s,
                    _ => acc + s,
                }
            }
        },
        Rule::type_record_unit => {
            if acc.len() == 0 {
                s
            } else {
                match ch.rule {
                    Rule::var => acc + seq![B_SP] + s,
                    Rule::type_expr => acc + ascii_of(": "@) + s,
                    Rule::comments => acc + s,
                    _ => acc + s,
                }
            }
        },
        Rule::type_application => {
            let acc2 = if acc.len() == 0 {
                acc
            } else {
                acc + seq![B_SP]
            };
            if ch.rule == Rule::type_expr {
                acc2 + ascii_of("("@) + s + ascii_of(")"@)
            } else {
                acc2 + s
            }
        },
        Rule::assignment => {
            if acc.len() == 0 {
                s
            } else {
                match ch.rule {
                    Rule::var => acc + seq![B_SP] + s,
                    Rule::dyadic_expr
                    | Rule::unary_operator_expr
                    | Rule::application
                    | Rule::unary
                    | Rule::variant_constructor => acc + ascii_of(" <- "@) + s,
                    Rule::comments => acc + s,
                    _ => acc + s,
                }
            }
        },
        Rule::application => {
            if i == 0 {
                s
            } else {
                let first = s_cst(t, o, c.inner[0], depth);
                if first != ascii_of("document"@) {
                    acc + seq![B_SP] + s
                } else {
                    acc + s
                }
            }
        },
        Rule::bind_stmt => {
            match ch.rule {
                Rule::let_stmt
                | Rule::let_rec_stmt
                | Rule::let_math_stmt
                | Rule::let_mutable_stmt
                | Rule::open_stmt => {
                    if i == 0 {
                        acc + s + ascii_of(" in"@)
                    } else {
                        acc + newline + s + ascii_of(" in"@)
                    }
                },
                Rule::expr => {
                    let pre = if i > 0 && c.inner[i - 1].rule == Rule::comments {
                        acc
                    } else if ascii_of("let"@).is_prefix_of(s) || s.contains(B_NL) {
                        acc + newline
                    } else if first_byte(s) == B_LBRACE || ascii_of("'<"@).is_prefix_of(s) {
                        acc + seq![B_SP]
                    } else {
                        acc + newline
                    };
                    if ascii_of("let"@).is_prefix_of(s) {
                        pre + spec_trim_start(s)
                    } else if s.contains(B_NL) {
                        let s2 = s_cst(t, o, ch, bump(depth));
                        pre + one + spec_trim_start(s2)
                    } else {
                        pre + spec_trim_start(s)
                    }
                },
                Rule::comments => {
                    if ascii_of("in"@).is_suffix_of(acc) {
                        acc + newline + s
                    } else {
                        acc + s
                    }
                },
                _ => acc + s,
            }
        },
        Rule::type_expr => {
            if i == 0 {
                s
            } else {
                let sep = if c.inner[i - 1].rule == Rule::type_optional {
                    ascii_of(" ?-> "@)
                } else {
                    ascii_of(" -> "@)
                };
                acc + sep + s
            }
        },
        Rule::module_stmt => {
            if i == 0 {
                s
            } else {
                match ch.rule {
                    Rule::sig_stmt => acc + ascii_of(": "@) + s,
                    Rule::struct_stmt => acc + ascii_of(" = "@) + s,
                    _ => acc + s,
                }
            }
        },
        Rule::struct_stmt => {
            let check = seq![B_NL] + newline;
            let acc2 = if acc.len() == 0 || check.is_suffix_of(acc) {
                acc
            } else if i > 0 && c.inner[i - 1].rule == Rule::comments {
                acc
            } else if i > 0 && c.inner[i - 1].rule != ch.rule {
                acc + seq![B_NL] + newline
            } else if !s.contains(B_NL) {
                acc + newline
            } else if i > 0 && (c.inner[i - 1].rule == Rule::let_stmt || c.inner[i - 1].rule
                == Rule::let_rec_stmt) {
                acc + seq![B_NL] + newline
            } else {
                match ch.rule {
                    Rule::let_stmt | Rule::let_rec_stmt => acc + seq![B_NL] + newline,
                    Rule::comments => acc,
                    _ => acc + newline,
                }
            };
            acc2 + s
        },
        Rule::sig_stmt => {
            match ch.rule {
                Rule::module_name => acc + seq![B_SP] + s,
                Rule::struct_stmt => acc + ascii_of("= struct"@) + s,
                Rule::comments => acc + s,
                _ => acc + s,
            }
        },
        Rule::horizontal_single => {
            if acc.len() == 0 {
                s
            } else if ch.rule == Rule::regular_text && spec_trim(s).len() == 0 {
                if is_ws(last_byte(acc)) {
                    acc
                } else {
                    acc + s
                }
            } else if ch.rule == Rule::regular_text {
                if is_ws(last_byte(acc)) {
                    acc + spec_trim_start(s)
                } else {
                    acc + s
                }
            } else if ch.rule == Rule::comments {
                spec_trim_end(acc) + newline + s
            } else {
                acc + s
            }
        },
        Rule::preamble => {
            let s1 = spec_trim(s);
            if acc.len() == 0 {
                s1
            } else if s1.len() == 0 {
                acc
            } else {
                match ch.rule {
                    Rule::module_stmt => acc + seq![B_NL, B_NL] + s1,
                    _ => acc + seq![B_NL] + s1,
                }
            }
        },
        Rule::horizontal_list => {
            if ch.rule == Rule::comments {
                acc + s
            } else if s.len() == 0 {
                acc
            } else {
                acc + seq![B_SP] + s + newline + ascii_of("|"@)
            }
        },
        Rule::list => {
            let sep = ascii_of(";"@) + newline;
            if ch.rule == Rule::comments {
                acc + s
            } else if acc.len() == 0 {
                s + sep
            } else if s.len() == 0 {
                acc
            } else {
                acc + s + sep
            }
        },
        Rule::block_cmd | Rule::inline_cmd => {
            if acc.len() == 0 {
                s
            } else if s.len() == 0 {
                acc
            } else if newline.is_suffix_of(acc) {
                acc + s
            } else if ch.rule == Rule::cmd_text_arg && !o.command_args_space {
                acc + s
            } else {
                acc + seq![B_SP] + s
            }
        },
        Rule::math_single => {
            if acc.len() == 0 {
                s
            } else if s.len() == 0 {
                acc
            } else if newline.is_suffix_of(acc) {
                acc + s
            } else if first_byte(s) == B_COMMA || (is_alpha(last_byte(acc)) && acc.len() >= 2 && is_ws(
                acc[acc.len() - 2],
            ) && is_alpha(first_byte(s))) {
                acc + s
            } else {
                acc + seq![B_SP] + s
            }
        },
        Rule::math_token => {
            if acc.len() == 0 {
                s
            } else if s.len() == 0 {
                acc
            } else if newline.is_suffix_of(acc) {
                acc + s
            } else if ch.rule == Rule::math_sup || ch.rule == Rule::math_sub {
                acc + s
            } else {
                acc + seq![B_SP] + s
            }
        },
        Rule::vertical => {
            let out = if acc.len() == 0 {
                s
            } else if s.len() == 0 {
                acc
            } else if newline.is_suffix_of(acc) {
                acc + s
            } else {
                acc + newline + s
            };
            spec_trim_end(out)
        },
        _ => {
            let sep = sep_of(o, c.rule, depth);
            let out = if acc.len() == 0 {
                s
            } else if s.len() == 0 {
                acc
            } else if newline.is_suffix_of(acc) {
                acc + s
            } else if first_byte(s) == B_NL {
                acc + s
            } else {
                acc + sep + s
            };
            if c.rule == Rule::program_saty && ch.rule == Rule::preamble {
                out + seq![B_NL] + ascii_of("in"@) + seq![B_NL, B_NL]
            } else {
                out
            }
        },
    }
    }
}

/// The extra state after joining child `i`.
pub open spec fn step_st(
    t: Seq<u8>,
    o: OptionData,
    c: CstView,
    depth: int,
    i: int,
    acc: Seq<u8>,
    st: FoldSt,
) -> FoldSt
    decreases c, 0int, 1int,
{
    if i < 0 || i >= c.inner.len() {
        st
    } else {
    let ch = c.inner[i];
    match c.rule {
        Rule::let_rec_inner => {
            if acc.len() == 0 {
                st
            } else if ch.rule == Rule::type_expr {
                FoldSt { flag: true, ..st }
            } else if ch.rule == Rule::arg && st.flag {
                FoldSt { flag: false, ..st }
            } else {
                st
            }
        },
        Rule::ctrl_if | Rule::ctrl_while => {
            if ch.rule == Rule::expr {
                FoldSt { cnt: st.cnt + 1, ..st }
            } else {
                st
            }
        },
        _ => st,
    }
    }
}

/// Joins the children from index `i` on onto `acc`.
pub open spec fn s_fold(
    t: Seq<u8>,
    o: OptionData,
    c: CstView,
    depth: int,
    i: int,
    acc: Seq<u8>,
    st: FoldSt,
) -> Seq<u8>
    decreases c, 1int, c.inner.len() - i,
{
    if i < 0 || i >= c.inner.len() {
        acc
    } else {
        s_fold(
            t,
            o,
            c,
            depth,
            i + 1,
            step_acc(t, o, c, depth, i, acc, st),
            step_st(t, o, c, depth, i, acc, st),
        )
    }
}

/// The initial running state of a node's joining fold.
pub open spec fn init_st(c: CstView) -> FoldSt {
    FoldSt { flag: false, cnt: 0 }
}

/// The joined rendering of a node's children, at the children's depth.
pub open spec fn s_inner(t: Seq<u8>, o: OptionData, c: CstView, depth: int) -> Seq<u8>
    decreases c, 2int, 0int,
{
    if (c.rule == Rule::record || c.rule == Rule::type_record) && c.inner.len() == 1 {
        s_cst(t, o, c.inner[0], depth)
    } else {
        let init: Seq<u8> = if c.rule == Rule::lambda {
            ascii_of("fun"@)
        } else if c.rule == Rule::horizontal_list {
            ascii_of("|"@)
        } else {
            Seq::empty()
        };
        let folded = s_fold(t, o, c, depth, 0, init, init_st(c));
        if c.rule == Rule::horizontal_single {
            spec_trim(folded)
        } else if c.rule == Rule::list {
            spec_trim_end(folded)
        } else {
            folded
        }
    }
}

/// One line per physical line of the source text, interior whitespace runs
/// collapsed to single spaces, empty lines dropped.
pub open spec fn hlist_lines(s: Seq<u8>) -> Seq<Seq<u8>> {
    spec_keep(
        spec_split(s, B_NL).map_values(
            |l: Seq<u8>| spec_join(spec_keep(spec_split_ws(l)), seq![B_SP]),
        ),
    )
}

/// The decorated rendering of one node at `depth`.
pub open spec fn s_cst(t: Seq<u8>, o: OptionData, c: CstView, depth: int) -> Seq<u8>
    decreases c, 3int, 0int,
{
    let nd = new_depth_of(c.rule, depth);
    let output = s_inner(t, o, c, nd);
    let self_text = t.subrange(c.start, c.end);
    let start_indent = nl_ind(o, nd);
    let end_indent = nl_ind(o, depth);
    match c.rule {
        Rule::comments => crate::comment::spec_comment_string(self_text) + end_indent,
        Rule::stage => ascii_of("@stage: "@) + self_text + seq![B_NL, B_NL],
        Rule::headers => if output.len() > 0 {
            output + seq![B_NL]
        } else {
            output
        },
        Rule::header_require => ascii_of("@require: "@) + output + seq![B_NL],
        Rule::header_import => ascii_of("@import: "@) + output + seq![B_NL],
        Rule::pkgname => spec_trim(self_text),
        Rule::let_stmt => ascii_of("let "@) + output,
        Rule::let_rec_stmt => ascii_of("let-rec "@) + output,
        Rule::let_rec_inner => output,
        Rule::let_rec_matcharm => output,
        Rule::let_inline_stmt_ctx => ascii_of("let-inline "@) + output,
        Rule::let_inline_stmt_noctx => ascii_of("let-inline "@) + output,
        Rule::let_block_stmt_ctx => ascii_of("let-block "@) + output,
        Rule::let_block_stmt_noctx => ascii_of("let-block "@) + output,
        Rule::let_math_stmt => ascii_of("let-math "@) + output,
        Rule::let_mutable_stmt => ascii_of("let-mutable "@) + output,
        Rule::type_stmt => ascii_of("type "@) + output,
        Rule::type_inner => output,
        Rule::type_variant => output,
        Rule::module_stmt => start_indent + ascii_of("module "@) + output,
        Rule::open_stmt => ascii_of("open "@) + output,
        Rule::arg => self_text,
        Rule::sig_stmt => ascii_of("sig"@) + output + end_indent + ascii_of("end"@),
        Rule::struct_stmt => ascii_of("struct"@) + start_indent + output + end_indent + ascii_of(
            "end"@,
        ),
        Rule::sig_type_stmt => start_indent + ascii_of("type "@) + output,
        Rule::sig_val_stmt => start_indent + ascii_of("val "@) + output,
        Rule::sig_direct_stmt => start_indent + ascii_of("direct "@) + output,
        Rule::type_expr => output,
        Rule::type_optional => output,
        Rule::type_prod => output,
        Rule::type_inline_cmd => if output.contains(B_NL) {
            ascii_of("["@) + start_indent + output + ascii_of(";"@) + end_indent + ascii_of(
                "] inline-cmd"@,
            )
        } else {
            ascii_of("["@) + output + ascii_of("] inline-cmd"@)
        },
        Rule::type_block_cmd => if output.contains(B_NL) {
            ascii_of("["@) + start_indent + output + ascii_of(";"@) + end_indent + ascii_of(
                "] block-cmd"@,
            )
        } else {
            ascii_of("["@) + output + ascii_of("] block-cmd"@)
        },
        Rule::type_math_cmd => if output.contains(B_NL) {
            ascii_of("["@) + start_indent + output + ascii_of(";"@) + end_indent + ascii_of(
                "] math-cmd"@,
            )
        } else {
            ascii_of("["@) + output + ascii_of("] math-cmd"@)
        },
        Rule::type_list_unit_optional => output + ascii_of("?"@),
        Rule::type_application => output,
        Rule::typename => self_text,
        Rule::type_record_unit => output,
        Rule::type_param => ascii_of("'"@) + output,
        Rule::constraint => ascii_of("constraint "@) + output,
        Rule::unary => output,
        Rule::unary_prefix => self_text,
        Rule::block_text => if output.len() > 0 {
            ascii_of("'<"@) + start_indent + output + end_indent + ascii_of(">"@)
        } else {
            ascii_of("'<"@) + output + ascii_of(">"@)
        },
        Rule::math_text => {
            let body = t.subrange(c.start + 2, c.end - 1);
            if c.end - c.start >= 3 && !body.contains(B_NL) {
                ascii_of("${"@) + spec_trim(body) + ascii_of("}"@)
            } else {
                ascii_of("${"@) + output + ascii_of("}"@)
            }
        },
        Rule::list => {
            let trimmed = spec_remove_ws(self_text);
            if output.len() == 0 {
                ascii_of("[]"@)
            } else if trimmed.len() < 15 {
                let inner = spec_join(
                    spec_keep(spec_map_trim(spec_split(output, B_NL))),
                    Seq::empty(),
                );
                ascii_of("["@) + inner + ascii_of("]"@)
            } else {
                ascii_of("["@) + start_indent + output + end_indent + ascii_of("]"@)
            }
        },
        Rule::record | Rule::type_record => if c.inner.len() > 1 {
            ascii_of("(|"@) + start_indent + output + end_indent + ascii_of("|)"@)
        } else {
            ascii_of("(|"@) + output + ascii_of("|)"@)
        },
        Rule::record_unit => output,
        Rule::tuple => ascii_of("("@) + output + ascii_of(")"@),
        Rule::bin_operator => if self_text == ascii_of("|>"@) {
            start_indent + ind(o, 1) + self_text
        } else {
            self_text
        },
        Rule::expr_with_mod => self_text,
        Rule::var => self_text,
        Rule::var_ptn => self_text,
        Rule::modvar => self_text,
        Rule::mod_cmd_name => self_text,
        Rule::module_name => self_text,
        Rule::variant_name => self_text,
        Rule::cmd_name_ptn => self_text,
        Rule::cmd_expr_arg => if first_byte(self_text) == B_LPAREN {
            ascii_of("("@) + output + ascii_of(")"@)
        } else {
            output
        },
        Rule::cmd_expr_option => if self_text == ascii_of("?*"@) {
            ascii_of("?*"@)
        } else {
            ascii_of("?:"@) + output
        },
        Rule::cmd_text_arg | Rule::horizontal_text => {
            let start_arg = first_byte(self_text);
            let end_arg = last_byte(self_text);
            let include_comment = first_byte(output) == B_PERCENT;
            let include_break = output.contains(B_NL) || start_arg == B_LT || include_comment;
            if spec_trim(output).len() == 0 {
                seq![start_arg, end_arg]
            } else if is_ws(first_byte(output)) {
                seq![start_arg, B_NL] + output + seq![end_arg]
            } else if include_break || output.len() > o.row_length as int {
                seq![start_arg] + start_indent + output + end_indent + seq![end_arg]
            } else {
                seq![start_arg, B_SP] + output + seq![B_SP, end_arg]
            }
        },
        Rule::inline_cmd => if last_byte(self_text) == B_SEMI {
            output + ascii_of(";"@)
        } else {
            output
        },
        Rule::inline_cmd_name => self_text,
        Rule::block_cmd => if last_byte(self_text) == B_SEMI {
            output + ascii_of(";"@)
        } else {
            output
        },
        Rule::block_cmd_name => self_text,
        Rule::math_cmd => spec_trim(self_text),
        Rule::math_cmd_name => self_text,
        Rule::math_cmd_expr_arg => output,
        Rule::math_cmd_expr_option => ascii_of(":?"@) + output,
        Rule::pat_as => output,
        Rule::pat_cons => output,
        Rule::pattern => self_text,
        Rule::pat_variant => output,
        Rule::pat_list => ascii_of("["@) + output + ascii_of("]"@),
        Rule::pat_tuple => output,
        Rule::expr => if last_byte(self_text) == B_SEMI {
            output + ascii_of(";"@)
        } else {
            output
        },
        Rule::match_expr => output,
        Rule::match_arm => output,
        Rule::match_guard => ascii_of("when "@) + output,
        Rule::bind_stmt => output,
        Rule::ctrl_while => output,
        Rule::ctrl_if => output,
        Rule::lambda => output,
        Rule::assignment => output,
        Rule::dyadic_expr => output,
        Rule::unary_operator_expr => output,
        Rule::unary_operator => self_text,
        Rule::application => output,
        Rule::application_args_normal => output,
        Rule::application_args_optional => if self_text == ascii_of("?*"@) {
            ascii_of("?*"@)
        } else {
            ascii_of("?:"@) + output
        },
        Rule::command_application => ascii_of("command "@) + output,
        Rule::variant_constructor => output,
        Rule::horizontal_single => output,
        // An inline-run list keeps the line structure its author wrote: each
        // source line is normalized (whitespace runs collapsed, bars kept
        // where they stand) and the lines are re-indented.  This overrides
        // the generic bar-joining fold for this kind — a deliberate choice,
        // so that re-splitting an already formatted list cannot drift.
        Rule::horizontal_list => {
            let sep = nl_ind(o, nd);
            let joined = spec_join(hlist_lines(self_text), sep);
            ind(o, nd) + joined
        },
        Rule::horizontal_bullet_list => output,
        Rule::horizontal_bullet => output,
        Rule::horizontal_bullet_star => spec_repeat(
            B_SP,
            iw((o.indent_space / 2) as int, self_text.len() - 1),
        ) + self_text,
        Rule::regular_text => {
            let sep = nl_ind(o, depth);
            let joined = spec_join(spec_keep(spec_map_trim(spec_split(self_text, B_NL))), sep);
            let start_space: Seq<u8> = if is_ws(first_byte(self_text)) {
                seq![B_SP]
            } else {
                Seq::empty()
            };
            let end_space: Seq<u8> = if is_ws(last_byte(self_text)) {
                seq![B_SP]
            } else {
                Seq::empty()
            };
            if spec_trim(joined).len() == 0 {
                if first_byte(self_text) == B_NL {
                    start_indent
                } else {
                    start_space
                }
            } else {
                if first_byte(self_text) == B_NL {
                    start_indent + joined + end_space
                } else {
                    start_space + joined + end_space
                }
            }
        },
        Rule::horizontal_escaped_char => self_text,
        Rule::inline_text_embedding => ascii_of("#"@) + output + ascii_of(";"@),
        Rule::vertical => output,
        Rule::block_text_embedding => ascii_of("#"@) + output + ascii_of(";"@),
        Rule::const_unit => self_text,
        Rule::const_bool => self_text,
        Rule::const_int => self_text,
        Rule::const_float => self_text,
        Rule::const_length => self_text,
        Rule::const_string => self_text,
        Rule::math_single => output,
        Rule::math_list => output,
        Rule::math_token => output,
        Rule::math_sup => if first_byte(self_text) == B_LBRACE {
            ascii_of("^{"@) + output + ascii_of("}"@)
        } else {
            ascii_of("^"@) + output
        },
        Rule::math_sub => if first_byte(self_text) == B_LBRACE {
            ascii_of("_{"@) + output + ascii_of("}"@)
        } else {
            ascii_of("_"@) + output
        },
        Rule::math_unary => if output.len() == 0 {
            self_text
        } else {
            output
        },
        Rule::math_embedding => ascii_of("#"@) + output,
        Rule::misc => seq![B_SP],
        Rule::program_saty => spec_trim_start(output),
        Rule::program_satyh => spec_trim_start(output),
        Rule::preamble => spec_trim_start(output),
        Rule::dummy_header => Seq::empty(),
        Rule::dummy_sig_stmt => Seq::empty(),
        Rule::dummy_stmt => Seq::empty(),
        Rule::dummy_inline_cmd_incomplete => Seq::empty(),
        Rule::dummy_block_cmd_incomplete => Seq::empty(),
        Rule::dummy_modvar_incomplete => Seq::empty(),
    }
}

} // verus!

verus! {

use vstd::arithmetic::div_mod::lemma_fundamental_div_mod;
use vstd::arithmetic::mul::lemma_mul_inequality;

use crate::bytes::{cat, lit, subvec};

/// The width `unit * depth`, saturated at the machine limit.
fn mul_sat(a: usize, b: usize) -> (r: usize)
    ensures
        r as int == iw(a as int, b as int),
{
    if a == 0 || b == 0 {
        0
    } else if a > usize::MAX / b {
        proof {
            let q = (usize::MAX / b) as int;
            lemma_fundamental_div_mod(usize::MAX as int, b as int);
            lemma_mul_inequality(q + 1, a as int, b as int);
            assert((q + 1) * b == b * q + b) by (nonlinear_arith);
            assert(a as int * b as int >= (q + 1) * b);
        }
        usize::MAX
    } else {
        proof {
            let q = (usize::MAX / b) as int;
            lemma_fundamental_div_mod(usize::MAX as int, b as int);
            lemma_mul_inequality(a as int, q, b as int);
            assert(q * b == b * q) by (nonlinear_arith);
            assert(a as int * b as int <= q * b);
        }
        a * b
    }
}

fn indent_of(o: &OptionData, depth: usize) -> (r: Vec<u8>)
    ensures
        r@ == ind(*o, depth as int),
{
    crate::bytes::repeat_byte(B_SP, mul_sat(o.indent_space, depth))
}

fn nl_indent(o: &OptionData, depth: usize) -> (r: Vec<u8>)
    ensures
        r@ == nl_ind(*o, depth as int),
{
    let mut r: Vec<u8> = Vec::new();
    r.push(B_NL);
    let tail = indent_of(o, depth);
    proof {
        assert(r@ =~= seq![B_NL]);
    }
    cat(r, &tail)
}

fn bump_depth(d: usize) -> (r: usize)
    ensures
        r as int == bump(d as int),
{
    if d == usize::MAX {
        d
    } else {
        d + 1
    }
}

fn new_depth_exec(rule: Rule, depth: usize) -> (r: usize)
    ensures
        r as int == new_depth_of(rule, depth as int),
{
    match rule {
        Rule::block_text | Rule::cmd_text_arg | Rule::record | Rule::type_record => bump_depth(
            depth,
        ),
        Rule::list => bump_depth(depth),
        Rule::type_block_cmd | Rule::type_inline_cmd | Rule::math_cmd => bump_depth(depth),
        Rule::match_expr | Rule::let_rec_matcharm => bump_depth(depth),
        Rule::let_rec_inner => bump_depth(depth),
        Rule::sig_stmt | Rule::struct_stmt => bump_depth(depth),
        _ => depth,
    }
}

fn fb(v: &Vec<u8>) -> (r: u8)
    ensures
        r == first_byte(v@),
{
    if v.len() > 0 {
        v[0]
    } else {
        0
    }
}

fn lb(v: &Vec<u8>) -> (r: u8)
    ensures
        r == last_byte(v@),
{
    if v.len() > 0 {
        v[v.len() - 1]
    } else {
        0
    }
}

fn single(b: u8) -> (r: Vec<u8>)
    ensures
        r@ == seq![b],
{
    let mut r: Vec<u8> = Vec::new();
    r.push(b);
    proof {
        assert(r@ =~= seq![b]);
    }
    r
}

fn pair(a: u8, b: u8) -> (r: Vec<u8>)
    ensures
        r@ == seq![a, b],
{
    let mut r: Vec<u8> = Vec::new();
    r.push(a);
    r.push(b);
    proof {
        assert(r@ =~= seq![a, b]);
    }
    r
}

fn contains_nl(v: &Vec<u8>) -> (r: bool)
    ensures
        r == v@.contains(B_NL),
{
    match crate::bytes::find_byte(v, B_NL) {
        Some(i) => {
            proof {
                assert(v@[i as int] == B_NL);
            }
            true
        },
        None => {
            proof {
                if v@.contains(B_NL) {
                    let w = choose|k: int| 0 <= k < v@.len() && v@[k] == B_NL;
                    lemma_find_contains(v@, B_NL, w);
                }
            }
            false
        },
    }
}

proof fn lemma_find_contains(s: Seq<u8>, b: u8, w: int)
    requires
        0 <= w < s.len(),
        s[w] == b,
    ensures
        spec_find(s, b) >= 0,
    decreases w + 1,
{
    if s[0] == b {
    } else {
        lemma_find_contains(s.subrange(1, s.len() as int), b, w - 1);
    }
}

} // verus!

verus! {

use crate::bytes::{ends_with, eq_bytes, starts_with, trim, trim_end};
use crate::cst::lemma_view;

/// Carries the renderer's configuration through the recursion.
pub struct Formatter {
    pub option: OptionData,
}

impl Formatter {
    pub fn new(option: OptionData) -> (r: Formatter)
        ensures
            r.option == option,
    {
        Formatter { option }
    }

    /// Renders one node, decoration included; returns exactly the value of
    /// the mathematical renderer `s_cst`.
    pub fn to_string_cst(&self, text: &Vec<u8>, cst: &CstNode, depth: usize) -> (out: Vec<u8>)
        requires
            cst@.wf(text@.len() as int),
        ensures
            out@ == s_cst(text@, self.option, cst@, depth as int),
        decreases *cst, 3int, 0int,
    {
        proof {
            lemma_view(*cst);
            reveal_strlit("@stage: ");
            reveal_strlit("@require: ");
            reveal_strlit("@import: ");
            reveal_strlit("let ");
            reveal_strlit("let-rec ");
            reveal_strlit("let-inline ");
            reveal_strlit("let-block ");
            reveal_strlit("let-math ");
            reveal_strlit("let-mutable ");
            reveal_strlit("type ");
            reveal_strlit("module ");
            reveal_strlit("open ");
            reveal_strlit("sig");
            reveal_strlit("end");
            reveal_strlit("struct");
            reveal_strlit("val ");
            reveal_strlit("direct ");
            reveal_strlit("[");
            reveal_strlit("]");
            reveal_strlit("] inline-cmd");
            reveal_strlit("] block-cmd");
            reveal_strlit("] math-cmd");
            reveal_strlit(";");
            reveal_strlit("?");
            reveal_strlit("'");
            reveal_strlit("constraint ");
            reveal_strlit("'<");
            reveal_strlit(">");
            reveal_strlit("${");
            reveal_strlit("}");
            reveal_strlit("[]");
            reveal_strlit("(|");
            reveal_strlit("|)");
            reveal_strlit("(");
            reveal_strlit(")");
            reveal_strlit("|>");
            reveal_strlit("?*");
            reveal_strlit("?:");
            reveal_strlit(":?");
            reveal_strlit("when ");
            reveal_strlit("command ");
            reveal_strlit("#");
            reveal_strlit("^{");
            reveal_strlit("^");
            reveal_strlit("_{");
            reveal_strlit("_");
        }
        let ghost cv = cst@;
        let ghost gt = text@;
        let o = self.option;
        let nd = new_depth_exec(cst.rule, depth);
        let output = self.to_string_cst_inner(text, cst, nd);
        proof {
            assert(cst.span.start as int == cv.start && cst.span.end as int == cv.end);
            assert(cv.start <= cv.end <= gt.len());
        }
        let self_text = subvec(text, cst.span.start, cst.span.end);
        let start_indent = nl_indent(&o, nd);
        let end_indent = nl_indent(&o, depth);
        let out: Vec<u8> = match cst.rule {
            Rule::comments => cat(crate::comment::comment_string(&self_text), &end_indent),
            Rule::stage => cat(cat(lit("@stage: "), &self_text), &pair(B_NL, B_NL)),
            Rule::headers => {
                if output.len() > 0 {
                    cat(output, &single(B_NL))
                } else {
                    output
                }
            },
            Rule::header_require => cat(cat(lit("@require: "), &output), &single(B_NL)),
            Rule::header_import => cat(cat(lit("@import: "), &output), &single(B_NL)),
            Rule::pkgname => trim(&self_text),
            Rule::let_stmt => cat(lit("let "), &output),
            Rule::let_rec_stmt => cat(lit("let-rec "), &output),
            Rule::let_rec_inner => output,
            Rule::let_rec_matcharm => output,
            Rule::let_inline_stmt_ctx => cat(lit("let-inline "), &output),
            Rule::let_inline_stmt_noctx => cat(lit("let-inline "), &output),
            Rule::let_block_stmt_ctx => cat(lit("let-block "), &output),
            Rule::let_block_stmt_noctx => cat(lit("let-block "), &output),
            Rule::let_math_stmt => cat(lit("let-math "), &output),
            Rule::let_mutable_stmt => cat(lit("let-mutable "), &output),
            Rule::type_stmt => cat(lit("type "), &output),
            Rule::type_inner => output,
            Rule::type_variant => output,
            Rule::module_stmt => cat(cat(start_indent, &lit("module ")), &output),
            Rule::open_stmt => cat(lit("open "), &output),
            Rule::arg => self_text,
            Rule::sig_stmt => cat(cat(cat(lit("sig"), &output), &end_indent), &lit("end")),
            Rule::struct_stmt => cat(
                cat(cat(cat(lit("struct"), &start_indent), &output), &end_indent),
                &lit("end"),
            ),
            Rule::sig_type_stmt => cat(cat(start_indent, &lit("type ")), &output),
            Rule::sig_val_stmt => cat(cat(start_indent, &lit("val ")), &output),
            Rule::sig_direct_stmt => cat(cat(start_indent, &lit("direct ")), &output),
            Rule::type_expr => output,
            Rule::type_optional => output,
            Rule::type_prod => output,
            Rule::type_inline_cmd => {
                if contains_nl(&output) {
                    cat(
                        cat(cat(cat(cat(lit("["), &start_indent), &output), &lit(";")), &end_indent),
                        &lit("] inline-cmd"),
                    )
                } else {
                    cat(cat(lit("["), &output), &lit("] inline-cmd"))
                }
            },
            Rule::type_block_cmd => {
                if contains_nl(&output) {
                    cat(
                        cat(cat(cat(cat(lit("["), &start_indent), &output), &lit(";")), &end_indent),
                        &lit("] block-cmd"),
                    )
                } else {
                    cat(cat(lit("["), &output), &lit("] block-cmd"))
                }
            },
            Rule::type_math_cmd => {
                if contains_nl(&output) {
                    cat(
                        cat(cat(cat(cat(lit("["), &start_indent), &output), &lit(";")), &end_indent),
                        &lit("] math-cmd"),
                    )
                } else {
                    cat(cat(lit("["), &output), &lit("] math-cmd"))
                }
            },
            Rule::type_list_unit_optional => cat(output, &lit("?")),
            Rule::type_application => output,
            Rule::typename => self_text,
            Rule::type_record_unit => output,
            Rule::type_param => cat(lit("'"), &output),
            Rule::constraint => cat(lit("constraint "), &output),
            Rule::unary => output,
            Rule::unary_prefix => self_text,
            Rule::block_text => {
                if output.len() > 0 {
                    cat(cat(cat(cat(lit("'<"), &start_indent), &output), &end_indent), &lit(">"))
                } else {
                    cat(cat(lit("'<"), &output), &lit(">"))
                }
            },
            Rule::math_text => {
                if cst.span.end - cst.span.start >= 3 {
                    let body = subvec(text, cst.span.start + 2, cst.span.end - 1);
                    if !contains_nl(&body) {
                        cat(cat(lit("${"), &trim(&body)), &lit("}"))
                    } else {
                        cat(cat(lit("${"), &output), &lit("}"))
                    }
                } else {
                    cat(cat(lit("${"), &output), &lit("}"))
                }
            },
            Rule::list => {
                let trimmed = crate::bytes::remove_ws(&self_text);
                if output.len() == 0 {
                    lit("[]")
                } else if trimmed.len() < 15 {
                    let parts = crate::bytes::split_byte(&output, B_NL);
                    let parts2 = crate::bytes::map_trim(&parts);
                    let parts3 = crate::bytes::keep_nonempty(&parts2);
                    let empty_sep: Vec<u8> = Vec::new();
                    let inner = crate::bytes::join(&parts3, &empty_sep);
                    cat(cat(lit("["), &inner), &lit("]"))
                } else {
                    cat(cat(cat(cat(lit("["), &start_indent), &output), &end_indent), &lit("]"))
                }
            },
            Rule::record | Rule::type_record => {
                if cst.inner.len() > 1 {
                    cat(cat(cat(cat(lit("(|"), &start_indent), &output), &end_indent), &lit("|)"))
                } else {
                    cat(cat(lit("(|"), &output), &lit("|)"))
                }
            },
            Rule::record_unit => output,
            Rule::tuple => cat(cat(lit("("), &output), &lit(")")),
            Rule::bin_operator => {
                let arrow = lit("|>");
                if eq_bytes(&self_text, &arrow) {
                    let one = indent_of(&o, 1);
                    cat(cat(start_indent, &one), &self_text)
                } else {
                    self_text
                }
            },
            Rule::expr_with_mod => self_text,
            Rule::var => self_text,
            Rule::var_ptn => self_text,
            Rule::modvar => self_text,
            Rule::mod_cmd_name => self_text,
            Rule::module_name => self_text,
            Rule::variant_name => self_text,
            Rule::cmd_name_ptn => self_text,
            Rule::cmd_expr_arg => {
                if fb(&self_text) == B_LPAREN {
                    cat(cat(lit("("), &output), &lit(")"))
                } else {
                    output
                }
            },
            Rule::cmd_expr_option => {
                let q = lit("?*");
                if eq_bytes(&self_text, &q) {
                    q
                } else {
                    cat(lit("?:"), &output)
                }
            },
            Rule::cmd_text_arg | Rule::horizontal_text => {
                let start_arg = fb(&self_text);
                let end_arg = lb(&self_text);
                let include_comment = fb(&output) == B_PERCENT;
                let include_break = contains_nl(&output) || start_arg == B_LT || include_comment;
                let tr = trim(&output);
                if tr.len() == 0 {
                    pair(start_arg, end_arg)
                } else if crate::bytes::ws_byte(fb(&output)) {
                    cat(cat(pair(start_arg, B_NL), &output), &single(end_arg))
                } else if include_break || output.len() > o.row_length {
                    cat(
                        cat(cat(cat(single(start_arg), &start_indent), &output), &end_indent),
                        &single(end_arg),
                    )
                } else {
                    cat(cat(pair(start_arg, B_SP), &output), &pair(B_SP, end_arg))
                }
            },
            Rule::inline_cmd => {
                if lb(&self_text) == B_SEMI {
                    cat(output, &lit(";"))
                } else {
                    output
                }
            },
            Rule::inline_cmd_name => self_text,
            Rule::block_cmd => {
                if lb(&self_text) == B_SEMI {
                    cat(output, &lit(";"))
                } else {
                    output
                }
            },
            Rule::block_cmd_name => self_text,
            Rule::math_cmd => trim(&self_text),
            Rule::math_cmd_name => self_text,
            Rule::math_cmd_expr_arg => output,
            Rule::math_cmd_expr_option => cat(lit(":?"), &output),
            Rule::pat_as => output,
            Rule::pat_cons => output,
            Rule::pattern => self_text,
            Rule::pat_variant => output,
            Rule::pat_list => cat(cat(lit("["), &output), &lit("]")),
            Rule::pat_tuple => output,
            Rule::expr => {
                if lb(&self_text) == B_SEMI {
                    cat(output, &lit(";"))
                } else {
                    output
                }
            },
            Rule::match_expr => output,
            Rule::match_arm => output,
            Rule::match_guard => cat(lit("when "), &output),
            Rule::bind_stmt => output,
            Rule::ctrl_while => output,
            Rule::ctrl_if => output,
            Rule::lambda => output,
            Rule::assignment => output,
            Rule::dyadic_expr => output,
            Rule::unary_operator_expr => output,
            Rule::unary_operator => self_text,
            Rule::application => output,
            Rule::application_args_normal => output,
            Rule::application_args_optional => {
                let q = lit("?*");
                if eq_bytes(&self_text, &q) {
                    q
                } else {
                    cat(lit("?:"), &output)
                }
            },
            Rule::command_application => cat(lit("command "), &output),
            Rule::variant_constructor => output,
            Rule::horizontal_single => output,
            Rule::horizontal_list => {
                let sep = nl_indent(&o, nd);
                let normalized = hlist_norm(&self_text);
                let joined = crate::bytes::join(&normalized, &sep);
                cat(indent_of(&o, nd), &joined)
            },
            Rule::horizontal_bullet_list => output,
            Rule::horizontal_bullet => output,
            Rule::horizontal_bullet_star => {
                let n: usize = if self_text.len() > 0 {
                    self_text.len() - 1
                } else {
                    0
                };
                let w = mul_sat(o.indent_space / 2, n);
                proof {
                    if cv.start < cv.end {
                        assert(iw((o.indent_space / 2) as int, n as int) == iw(
                            (o.indent_space / 2) as int,
                            self_text@.len() - 1,
                        ));
                    }
                }
                cat(crate::bytes::repeat_byte(B_SP, w), &self_text)
            },
            Rule::regular_text => {
                let sep = nl_indent(&o, depth);
                let parts = crate::bytes::split_byte(&self_text, B_NL);
                let parts2 = crate::bytes::map_trim(&parts);
                let parts3 = crate::bytes::keep_nonempty(&parts2);
                let joined = crate::bytes::join(&parts3, &sep);
                let start_space: Vec<u8> = if crate::bytes::ws_byte(fb(&self_text)) {
                    single(B_SP)
                } else {
                    Vec::new()
                };
                let end_space: Vec<u8> = if crate::bytes::ws_byte(lb(&self_text)) {
                    single(B_SP)
                } else {
                    Vec::new()
                };
                let tj = trim(&joined);
                if tj.len() == 0 {
                    if fb(&self_text) == B_NL {
                        start_indent
                    } else {
                        start_space
                    }
                } else {
                    if fb(&self_text) == B_NL {
                        cat(cat(start_indent, &joined), &end_space)
                    } else {
                        cat(cat(start_space, &joined), &end_space)
                    }
                }
            },
            Rule::horizontal_escaped_char => self_text,
            Rule::inline_text_embedding => cat(cat(lit("#"), &output), &lit(";")),
            Rule::vertical => output,
            Rule::block_text_embedding => cat(cat(lit("#"), &output), &lit(";")),
            Rule::const_unit => self_text,
            Rule::const_bool => self_text,
            Rule::const_int => self_text,
            Rule::const_float => self_text,
            Rule::const_length => self_text,
            Rule::const_string => self_text,
            Rule::math_single => output,
            Rule::math_list => output,
            Rule::math_token => output,
            Rule::math_sup => {
                if fb(&self_text) == B_LBRACE {
                    cat(cat(lit("^{"), &output), &lit("}"))
                } else {
                    cat(lit("^"), &output)
                }
            },
            Rule::math_sub => {
                if fb(&self_text) == B_LBRACE {
                    cat(cat(lit("_{"), &output), &lit("}"))
                } else {
                    cat(lit("_"), &output)
                }
            },
            Rule::math_unary => {
                if output.len() == 0 {
                    self_text
                } else {
                    output
                }
            },
            Rule::math_embedding => cat(lit("#"), &output),
            Rule::misc => single(B_SP),
            Rule::program_saty => crate::bytes::trim_start(&output),
            Rule::program_satyh => crate::bytes::trim_start(&output),
            Rule::preamble => crate::bytes::trim_start(&output),
            Rule::dummy_header
            | Rule::dummy_sig_stmt
            | Rule::dummy_stmt
            | Rule::dummy_inline_cmd_incomplete
            | Rule::dummy_block_cmd_incomplete
            | Rule::dummy_modvar_incomplete => {
                proof {
                    assert(false);
                }
                Vec::new()
            },
        };
        proof {
            assert(out@ == s_cst(gt, o, cv, depth as int));
        }
        out
    }
}

/// One piece per source line of a horizontal list, interior whitespace runs
/// collapsed, empty lines dropped.
fn hlist_norm(v: &Vec<u8>) -> (r: Vec<Vec<u8>>)
    ensures
        crate::bytes::piece_views(r@) == hlist_lines(v@),
{
    let ls = crate::bytes::split_byte(v, B_NL);
    let sp = single(B_SP);
    let mut mapped: Vec<Vec<u8>> = Vec::new();
    let mut i: usize = 0;
    while i < ls.len()
        invariant
            0 <= i <= ls@.len(),
            sp@ == seq![B_SP],
            crate::bytes::piece_views(ls@) == crate::bytes::spec_split(v@, B_NL),
            mapped@.len() == i,
            forall|k: int|
                0 <= k < i ==> (#[trigger] mapped@[k])@ == spec_join(
                    spec_keep(spec_split_ws(ls@[k]@)),
                    seq![B_SP],
                ),
        decreases ls@.len() - i,
    {
        let ws_parts = crate::bytes::split_ws(&ls[i]);
        let kept = crate::bytes::keep_nonempty(&ws_parts);
        let j = crate::bytes::join(&kept, &sp);
        mapped.push(j);
        i += 1;
    }
    let r = crate::bytes::keep_nonempty(&mapped);
    proof {
        crate::bytes::lemma_piece_views(mapped@);
        crate::bytes::lemma_piece_views(ls@);
        assert(crate::bytes::piece_views(mapped@) =~= crate::bytes::spec_split(
            v@,
            B_NL,
        ).map_values(|l: Seq<u8>| spec_join(spec_keep(spec_split_ws(l)), seq![B_SP])));
    }
    r
}

} // verus!

verus! {

impl Formatter {
    /// Joins the rendered children of one node with its kind's separator;
    /// returns exactly the value of the mathematical fold `s_inner`.
    #[verifier::loop_isolation(false)]
    #[verifier::rlimit(100)]
    pub fn to_string_cst_inner(&self, text: &Vec<u8>, cst: &CstNode, depth: usize) -> (out: Vec<u8>)
        requires
            cst@.wf(text@.len() as int),
        ensures
            out@ == s_inner(text@, self.option, cst@, depth as int),
        decreases *cst, 2int, 0int,
    {
        proof {
            lemma_view(*cst);
            reveal_strlit("fun");
            reveal_strlit("|");
            reveal_strlit("let");
            reveal_strlit("'<");
            reveal_strlit("{");
            reveal_strlit("in");
            reveal_strlit("document");
            reveal_strlit("!");
            reveal_strlit("&");
            reveal_strlit("~");
            reveal_strlit(" <- ");
            reveal_strlit(" <-");
            reveal_strlit("(");
            reveal_strlit(")");
            reveal_strlit(" (");
            reveal_strlit(": ");
            reveal_strlit(" = ");
            reveal_strlit(" =");
            reveal_strlit("{ ");
            reveal_strlit(" }");
            reveal_strlit("!{ ");
            reveal_strlit("!(");
            reveal_strlit(" :: ");
            reveal_strlit(" with ");
            reveal_strlit(";");
            reveal_strlit(" | ");
            reveal_strlit("| ");
            reveal_strlit(" -> ");
            reveal_strlit(" of ");
            reveal_strlit("match ");
            reveal_strlit(" with");
            reveal_strlit(" match ");
            reveal_strlit("if ");
            reveal_strlit(" then ");
            reveal_strlit(" else ");
            reveal_strlit("#");
            reveal_strlit("= struct");
            reveal_strlit(" of ");
            reveal_strlit("|");
            reveal_strlit("while ");
            reveal_strlit(" do ");
            reveal_strlit(" in");
            reveal_strlit(" ?-> ");
            reveal_strlit(" -> ");
        }
        let ghost cv = cst@;
        let ghost gt = text@;
        let o = self.option;
        if (matches!(cst.rule, Rule::record) || matches!(cst.rule, Rule::type_record))
            && cst.inner.len() == 1 {
            proof {
                assert(cv.inner[0] == cst.inner@[0]@);
                assert(cv.inner[0].wf(gt.len() as int));
            }
            let r = self.to_string_cst(text, &cst.inner[0], depth);
            return r;
        }
        let mut acc: Vec<u8> = if matches!(cst.rule, Rule::lambda) {
            lit("fun")
        } else if matches!(cst.rule, Rule::horizontal_list) {
            lit("|")
        } else {
            Vec::new()
        };
        let ghost init_acc = acc@;
        proof {
            if !matches!(cst.rule, Rule::lambda) && !matches!(cst.rule, Rule::horizontal_list) {
                assert(init_acc =~= Seq::<u8>::empty());
            }
        }
        let mut flag: bool = false;
        let mut cnt: usize = 0;
        let mut i: usize = 0;
        while i < cst.inner.len()
            invariant
                0 <= i <= cst.inner@.len(),
                cnt <= i,
                s_fold(gt, o, cv, depth as int, 0, init_acc, init_st(cv)) == s_fold(
                    gt,
                    o,
                    cv,
                    depth as int,
                    i as int,
                    acc@,
                    FoldSt { flag: flag, cnt: cnt as int },
                ),
            decreases cst.inner@.len() - i,
        {
            let child = &cst.inner[i];
            proof {
                assert(cv.inner[i as int] == cst.inner@[i as int]@);
                assert(cv.inner[i as int].wf(gt.len() as int));
                assert(cv.inner[i as int].rule == child.rule);
                assert(cv.inner[i as int].start == child.span.start as int);
                assert(cv.inner[i as int].end == child.span.end as int);
                if i > 0 {
                    assert(cv.inner[i - 1] == cst.inner@[i - 1]@);
                    assert(cv.inner[i - 1].rule == cst.inner@[i - 1].rule);
                }
                if i + 1 < cst.inner@.len() {
                    assert(cv.inner[i + 1] == cst.inner@[i + 1]@);
                    assert(cv.inner[i + 1].rule == cst.inner@[i + 1].rule);
                }
            }
            let s = self.to_string_cst(text, child, depth);
            let ghost pacc = acc@;
            let ghost pst = FoldSt { flag: flag, cnt: cnt as int };
            let res = match cst.rule {
                Rule::variant_constructor | Rule::let_mutable_stmt | Rule::let_block_stmt_ctx | Rule::let_block_stmt_noctx | Rule::let_inline_stmt_ctx | Rule::let_inline_stmt_noctx | Rule::let_stmt | Rule::let_rec_stmt | Rule::sig_val_stmt | Rule::sig_direct_stmt | Rule::type_stmt | Rule::let_math_stmt => self.fold_step_A(text, cst, depth, i, s, acc, flag, cnt),
                Rule::math_cmd_expr_arg | Rule::math_cmd_expr_option | Rule::cmd_expr_option | Rule::pat_cons | Rule::pat_variant | Rule::constraint | Rule::record | Rule::type_record | Rule::type_inner | Rule::type_variant => self.fold_step_B(text, cst, depth, i, s, acc, flag, cnt),
                Rule::let_rec_inner | Rule::let_rec_matcharm | Rule::match_arm | Rule::match_expr | Rule::ctrl_if | Rule::ctrl_while | Rule::unary | Rule::lambda => self.fold_step_C(text, cst, depth, i, s, acc, flag, cnt),
                Rule::record_unit | Rule::type_record_unit | Rule::type_application | Rule::assignment | Rule::application | Rule::bind_stmt | Rule::type_expr | Rule::module_stmt => self.fold_step_D(text, cst, depth, i, s, acc, flag, cnt),
                Rule::struct_stmt | Rule::sig_stmt | Rule::horizontal_single | Rule::preamble | Rule::horizontal_list | Rule::list => self.fold_step_E(text, cst, depth, i, s, acc, flag, cnt),
                _ => self.fold_step_F(text, cst, depth, i, s, acc, flag, cnt),
            };
            acc = res.0;
            flag = res.1;
            cnt = res.2;
            proof {
                assert(acc@ == step_acc(gt, o, cv, depth as int, i as int, pacc, pst));
                assert((FoldSt { flag: flag, cnt: cnt as int })
                    == step_st(gt, o, cv, depth as int, i as int, pacc, pst));
            }
            i += 1;
        }
        let out: Vec<u8> = if matches!(cst.rule, Rule::horizontal_single) {
            trim(&acc)
        } else if matches!(cst.rule, Rule::list) {
            trim_end(&acc)
        } else {
            acc
        };
        proof {
            assert(out@ == s_inner(gt, o, cv, depth as int));
        }
        out
    }

    /// One joining step of `to_string_cst_inner`, for part of the kinds.
    #[verifier::rlimit(100)]
    fn fold_step_A(
        &self,
        text: &Vec<u8>,
        cst: &CstNode,
        depth: usize,
        i: usize,
        s: Vec<u8>,
        acc: Vec<u8>,
        flag: bool,
        cnt: usize,
    ) -> (r: (Vec<u8>, bool, usize))
        requires
            cst@.wf(text@.len() as int),
            0 <= i < cst.inner@.len(),
            s@ == s_cst(text@, self.option, cst@.inner[i as int], depth as int),
            cnt <= i,
            cst@.rule == crate::cst::Rule::variant_constructor || cst@.rule == crate::cst::Rule::let_mutable_stmt || cst@.rule == crate::cst::Rule::let_block_stmt_ctx || cst@.rule == crate::cst::Rule::let_block_stmt_noctx || cst@.rule == crate::cst::Rule::let_inline_stmt_ctx || cst@.rule == crate::cst::Rule::let_inline_stmt_noctx || cst@.rule == crate::cst::Rule::let_stmt || cst@.rule == crate::cst::Rule::let_rec_stmt || cst@.rule == crate::cst::Rule::sig_val_stmt || cst@.rule == crate::cst::Rule::sig_direct_stmt || cst@.rule == crate::cst::Rule::type_stmt || cst@.rule == crate::cst::Rule::let_math_stmt,
        ensures
            r.0@ == step_acc(
                text@,
                self.option,
                cst@,
                depth as int,
                i as int,
                acc@,
                FoldSt { flag: flag, cnt: cnt as int },
            ),
            (FoldSt { flag: r.1, cnt: r.2 as int }) == step_st(
                text@,
                self.option,
                cst@,
                depth as int,
                i as int,
                acc@,
                FoldSt { flag: flag, cnt: cnt as int },
            ),
            r.2 <= i + 1,
        decreases *cst, 1int, 0int,
    {
        proof {
            lemma_view(*cst);
            reveal_strlit("= struct");
            reveal_strlit(" of ");
            reveal_strlit("|");
            reveal_strlit("while ");
            reveal_strlit(" do ");
            reveal_strlit("document");
            reveal_strlit(" match ");
            reveal_strlit(" with ");
            reveal_strlit(" else ");
            reveal_strlit(" then ");
            reveal_strlit("match ");
            reveal_strlit(" with");
            reveal_strlit(" ?-> ");
            reveal_strlit(" <- ");
            reveal_strlit(" :: ");
            reveal_strlit(" -> ");
            reveal_strlit(" in");
            reveal_strlit(" <-");
            reveal_strlit(" = ");
            reveal_strlit("if ");
            reveal_strlit("!{ ");
            reveal_strlit("let");
            reveal_strlit(" | ");
            reveal_strlit("'<");
            reveal_strlit("!(");
            reveal_strlit(": ");
            reveal_strlit(" (");
            reveal_strlit(" =");
            reveal_strlit("{ ");
            reveal_strlit(" }");
            reveal_strlit("| ");
            reveal_strlit("in");
            reveal_strlit("!");
            reveal_strlit(")");
            reveal_strlit(";");
            reveal_strlit("#");
            reveal_strlit("~");
            reveal_strlit("(");
            reveal_strlit("{");
            reveal_strlit("&");
        }
        let ghost cv = cst@;
        let ghost gt = text@;
        let o = self.option;
        let ghost pacc = acc@;
        let ghost pst = FoldSt { flag: flag, cnt: cnt as int };
        let child = &cst.inner[i];
        proof {
            assert(cv.inner[i as int] == cst.inner@[i as int]@);
            assert(cv.inner[i as int].wf(gt.len() as int));
            assert(cv.inner[i as int].rule == child.rule);
            assert(cv.inner[i as int].start == child.span.start as int);
            assert(cv.inner[i as int].end == child.span.end as int);
            if i > 0 {
                assert(cv.inner[i - 1] == cst.inner@[i - 1]@);
                assert(cv.inner[i - 1].rule == cst.inner@[i - 1].rule);
            }
            if i + 1 < cst.inner@.len() {
                assert(cv.inner[i + 1] == cst.inner@[i + 1]@);
                assert(cv.inner[i + 1].rule == cst.inner@[i + 1].rule);
            }
        }
        let n = cst.inner.len();
        let newline = nl_indent(&o, depth);
        let one = indent_of(&o, 1);
        let sp1 = single(B_SP);
        let mut acc = acc;
        let mut flag = flag;
        let mut cnt = cnt;
        match cst.rule {

                Rule::variant_constructor => {
                    if acc.len() == 0 {
                        acc = s;
                    } else if !(matches!(child.rule, Rule::unary) && fb(&s) == B_LPAREN) {
                        acc = cat(cat(acc, &sp1), &s);
                    } else {
                        acc = cat(acc, &s);
                    }
                },
                Rule::let_mutable_stmt => {
                    if acc.len() == 0 {
                        acc = s;
                    } else {
                        match child.rule {
                            Rule::var => {
                                acc = cat(cat(acc, &sp1), &s);
                            },
                            Rule::expr => {
                                if contains_nl(&s) {
                                    let s2 = self.to_string_cst(text, child, bump_depth(depth));
                                    acc = cat(
                                        cat(cat(cat(acc, &lit(" <-")), &newline), &one),
                                        &crate::bytes::trim_start(&s2),
                                    );
                                } else {
                                    acc = cat(cat(acc, &lit(" <- ")), &s);
                                }
                            },
                            _ => {
                                acc = cat(acc, &s);
                            },
                        }
                    }
                },
                Rule::let_block_stmt_ctx
                | Rule::let_block_stmt_noctx
                | Rule::let_inline_stmt_ctx
                | Rule::let_inline_stmt_noctx
                | Rule::let_stmt
                | Rule::let_rec_stmt
                | Rule::sig_val_stmt
                | Rule::sig_direct_stmt
                | Rule::type_stmt
                | Rule::let_math_stmt => {
                    let s1 = if matches!(cst.rule, Rule::sig_val_stmt) && matches!(
                        child.rule,
                        Rule::bin_operator,
                    ) {
                        cat(cat(lit("("), &s), &lit(")"))
                    } else {
                        s
                    };
                    if acc.len() == 0 {
                        acc = s1;
                    } else {
                        match child.rule {
                            Rule::var => {
                                acc = cat(cat(acc, &sp1), &s1);
                            },
                            Rule::block_cmd_name => {
                                acc = cat(cat(acc, &sp1), &s1);
                            },
                            Rule::bin_operator => {
                                acc = cat(cat(cat(acc, &lit(" (")), &s1), &lit(")"));
                            },
                            Rule::type_expr => {
                                acc = cat(cat(acc, &lit(": ")), &s1);
                            },
                            Rule::constraint => {
                                let s2 = self.to_string_cst(text, child, bump_depth(depth));
                                acc = cat(cat(cat(acc, &newline), &one), &s2);
                            },
                            Rule::expr => {
                                if i > 0 && matches!(cst.inner[i - 1].rule, Rule::comments) {
                                    let s2 = self.to_string_cst(text, child, bump_depth(depth));
                                    acc = cat(acc, &s2);
                                } else if starts_with(&s1, &lit("let")) || (!starts_with(
                                    &s1,
                                    &lit("'<"),
                                ) && !starts_with(&s1, &lit("{"))) && contains_nl(&s1) {
                                    let s2 = self.to_string_cst(text, child, bump_depth(depth));
                                    acc = cat(
                                        cat(cat(cat(acc, &lit(" =")), &newline), &one),
                                        &crate::bytes::trim_start(&s2),
                                    );
                                } else {
                                    acc = cat(cat(acc, &lit(" = ")), &s1);
                                }
                            },
                            Rule::comments => {
                                if i + 1 < cst.inner.len() && matches!(
                                    cst.inner[i + 1].rule,
                                    Rule::expr,
                                ) {
                                    let s2 = self.to_string_cst(text, child, bump_depth(depth));
                                    acc = cat(cat(cat(cat(acc, &lit(" =")), &newline), &one), &s2);
                                } else {
                                    acc = cat(acc, &s1);
                                }
                            },
                            _ => {
                                acc = cat(cat(acc, &sp1), &s1);
                            },
                        }
                    }
                },

            _ => {
                proof {
                    assert(false);
                }
            },
        }
        proof {
            assert(acc@ == step_acc(gt, o, cv, depth as int, i as int, pacc, pst));
            assert((FoldSt { flag: flag, cnt: cnt as int }) == step_st(
                gt,
                o,
                cv,
                depth as int,
                i as int,
                pacc,
                pst,
            ));
        }
        (acc, flag, cnt)
    }


    /// One joining step of `to_string_cst_inner`, for part of the kinds.
    #[verifier::rlimit(100)]
    fn fold_step_B(
        &self,
        text: &Vec<u8>,
        cst: &CstNode,
        depth: usize,
        i: usize,
        s: Vec<u8>,
        acc: Vec<u8>,
        flag: bool,
        cnt: usize,
    ) -> (r: (Vec<u8>, bool, usize))
        requires
            cst@.wf(text@.len() as int),
            0 <= i < cst.inner@.len(),
            s@ == s_cst(text@, self.option, cst@.inner[i as int], depth as int),
            cnt <= i,
            cst@.rule == crate::cst::Rule::math_cmd_expr_arg || cst@.rule == crate::cst::Rule::math_cmd_expr_option || cst@.rule == crate::cst::Rule::cmd_expr_option || cst@.rule == crate::cst::Rule::pat_cons || cst@.rule == crate::cst::Rule::pat_variant || cst@.rule == crate::cst::Rule::constraint || cst@.rule == crate::cst::Rule::record || cst@.rule == crate::cst::Rule::type_record || cst@.rule == crate::cst::Rule::type_inner || cst@.rule == crate::cst::Rule::type_variant,
        ensures
            r.0@ == step_acc(
                text@,
                self.option,
                cst@,
                depth as int,
                i as int,
                acc@,
                FoldSt { flag: flag, cnt: cnt as int },
            ),
            (FoldSt { flag: r.1, cnt: r.2 as int }) == step_st(
                text@,
                self.option,
                cst@,
                depth as int,
                i as int,
                acc@,
                FoldSt { flag: flag, cnt: cnt as int },
            ),
            r.2 <= i + 1,
        decreases *cst, 1int, 0int,
    {
        proof {
            lemma_view(*cst);
            reveal_strlit("= struct");
            reveal_strlit(" of ");
            reveal_strlit("|");
            reveal_strlit("while ");
            reveal_strlit(" do ");
            reveal_strlit("document");
            reveal_strlit(" match ");
            reveal_strlit(" with ");
            reveal_strlit(" else ");
            reveal_strlit(" then ");
            reveal_strlit("match ");
            reveal_strlit(" with");
            reveal_strlit(" ?-> ");
            reveal_strlit(" <- ");
            reveal_strlit(" :: ");
            reveal_strlit(" -> ");
            reveal_strlit(" in");
            reveal_strlit(" <-");
            reveal_strlit(" = ");
            reveal_strlit("if ");
            reveal_strlit("!{ ");
            reveal_strlit("let");
            reveal_strlit(" | ");
            reveal_strlit("'<");
            reveal_strlit("!(");
            reveal_strlit(": ");
            reveal_strlit(" (");
            reveal_strlit(" =");
            reveal_strlit("{ ");
            reveal_strlit(" }");
            reveal_strlit("| ");
            reveal_strlit("in");
            reveal_strlit("!");
            reveal_strlit(")");
            reveal_strlit(";");
            reveal_strlit("#");
            reveal_strlit("~");
            reveal_strlit("(");
            reveal_strlit("{");
            reveal_strlit("&");
        }
        let ghost cv = cst@;
        let ghost gt = text@;
        let o = self.option;
        let ghost pacc = acc@;
        let ghost pst = FoldSt { flag: flag, cnt: cnt as int };
        let child = &cst.inner[i];
        proof {
            assert(cv.inner[i as int] == cst.inner@[i as int]@);
            assert(cv.inner[i as int].wf(gt.len() as int));
            assert(cv.inner[i as int].rule == child.rule);
            assert(cv.inner[i as int].start == child.span.start as int);
            assert(cv.inner[i as int].end == child.span.end as int);
            if i > 0 {
                assert(cv.inner[i - 1] == cst.inner@[i - 1]@);
                assert(cv.inner[i - 1].rule == cst.inner@[i - 1].rule);
            }
            if i + 1 < cst.inner@.len() {
                assert(cv.inner[i + 1] == cst.inner@[i + 1]@);
                assert(cv.inner[i + 1].rule == cst.inner@[i + 1].rule);
            }
        }
        let n = cst.inner.len();
        let newline = nl_indent(&o, depth);
        let one = indent_of(&o, 1);
        let sp1 = single(B_SP);
        let mut acc = acc;
        let mut flag = flag;
        let mut cnt = cnt;
        match cst.rule {
                Rule::math_cmd_expr_arg | Rule::math_cmd_expr_option => {
                    match child.rule {
                        Rule::math_list | Rule::math_single => {
                            acc = cat(cat(cat(acc, &lit("{ ")), &s), &lit(" }"));
                        },
                        Rule::horizontal_list
                        | Rule::horizontal_bullet_list
                        | Rule::horizontal_single => {
                            acc = cat(cat(cat(acc, &lit("!{ ")), &s), &lit(" }"));
                        },
                        Rule::vertical => {
                            acc = cat(cat(acc, &lit("!")), &s);
                        },
                        Rule::expr => {
                            acc = cat(cat(cat(acc, &lit("!(")), &s), &lit(")"));
                        },
                        Rule::record | Rule::list => {
                            acc = cat(cat(acc, &lit("!")), &s);
                        },
                        _ => {
                            acc = cat(acc, &s);
                        },
                    }
                },
                Rule::cmd_expr_option => {
                    let s1 = if matches!(child.rule, Rule::expr) {
                        cat(cat(lit("("), &s), &lit(")"))
                    } else {
                        s
                    };
                    if acc.len() == 0 {
                        acc = s1;
                    } else {
                        match child.rule {
                            Rule::expr => {
                                acc = cat(acc, &s1);
                            },
                            _ => {
                                acc = cat(cat(acc, &sp1), &s1);
                            },
                        }
                    }
                },
                Rule::pat_cons => {
                    if acc.len() == 0 {
                        acc = s;
                    } else {
                        match child.rule {
                            Rule::pattern => {
                                if fb(&s) == B_LPAREN {
                                    acc = cat(acc, &s);
                                } else {
                                    acc = cat(cat(acc, &sp1), &s);
                                }
                            },
                            Rule::pat_variant => {
                                acc = cat(cat(acc, &sp1), &s);
                            },
                            Rule::pat_as => {
                                acc = cat(cat(acc, &lit(" :: ")), &s);
                            },
                            Rule::comments => {
                                acc = cat(cat(acc, &newline), &s);
                            },
                            _ => {
                                acc = cat(acc, &s);
                            },
                        }
                    }
                },
                Rule::pat_variant => {
                    if acc.len() == 0 {
                        acc = s;
                    } else {
                        match child.rule {
                            Rule::pattern => {
                                if fb(&s) == B_LPAREN {
                                    acc = cat(acc, &s);
                                } else {
                                    acc = cat(cat(acc, &sp1), &s);
                                }
                            },
                            Rule::variant_name => {
                                acc = cat(cat(acc, &sp1), &s);
                            },
                            Rule::comments => {
                                acc = cat(cat(acc, &newline), &s);
                            },
                            _ => {
                                acc = cat(acc, &s);
                            },
                        }
                    }
                },
                Rule::constraint => {
                    if acc.len() == 0 {
                        acc = s;
                    } else {
                        match child.rule {
                            Rule::type_param => {
                                acc = cat(cat(acc, &sp1), &s);
                            },
                            Rule::type_record => {
                                acc = cat(cat(acc, &lit(" :: ")), &s);
                            },
                            Rule::comments => {
                                acc = cat(cat(acc, &newline), &s);
                            },
                            _ => {
                                acc = cat(acc, &s);
                            },
                        }
                    }
                },
                Rule::record | Rule::type_record => {
                    let s1 = if matches!(child.rule, Rule::unary) {
                        cat(s, &lit(" with "))
                    } else if matches!(child.rule, Rule::record_unit) || matches!(
                        child.rule,
                        Rule::type_record_unit,
                    ) {
                        cat(s, &lit(";"))
                    } else {
                        s
                    };
                    acc = cat(acc, &s1);
                    if !matches!(child.rule, Rule::unary) {
                        let has_next = i + 1 < cst.inner.len();
                        if has_next && !matches!(child.rule, Rule::comments) && matches!(
                            cst.inner[i + 1].rule,
                            Rule::comments,
                        ) {
                            acc = cat(acc, &newline);
                        } else if has_next && (matches!(cst.inner[i + 1].rule, Rule::record_unit)
                            || matches!(cst.inner[i + 1].rule, Rule::type_record_unit)) {
                            acc = cat(acc, &newline);
                        } else if !has_next && matches!(child.rule, Rule::comments) {
                            acc = trim_end(&acc);
                        }
                    }
                },
                Rule::type_inner => {
                    let s1 = if matches!(child.rule, Rule::typename) {
                        cat(s, &lit(" = "))
                    } else {
                        s
                    };
                    if acc.len() == 0 {
                        acc = s1;
                    } else {
                        match child.rule {
                            Rule::typename => {
                                acc = cat(cat(acc, &sp1), &s1);
                            },
                            Rule::type_variant => {
                                acc = cat(cat(acc, &lit(" | ")), &s1);
                            },
                            _ => {
                                acc = cat(acc, &s1);
                            },
                        }
                    }
                },
                Rule::type_variant => {
                    if acc.len() == 0 {
                        acc = s;
                    } else {
                        match child.rule {
                            Rule::type_expr => {
                                acc = cat(cat(acc, &lit(" of ")), &s);
                            },
                            _ => {
                                acc = cat(acc, &s);
                            },
                        }
                    }
                },

            _ => {
                proof {
                    assert(false);
                }
            },
        }
        proof {
            assert(acc@ == step_acc(gt, o, cv, depth as int, i as int, pacc, pst));
            assert((FoldSt { flag: flag, cnt: cnt as int }) == step_st(
                gt,
                o,
                cv,
                depth as int,
                i as int,
                pacc,
                pst,
            ));
        }
        (acc, flag, cnt)
    }


    /// One joining step of `to_string_cst_inner`, for part of the kinds.
    #[verifier::rlimit(100)]
    fn fold_step_C(
        &self,
        text: &Vec<u8>,
        cst: &CstNode,
        depth: usize,
        i: usize,
        s: Vec<u8>,
        acc: Vec<u8>,
        flag: bool,
        cnt: usize,
    ) -> (r: (Vec<u8>, bool, usize))
        requires
            cst@.wf(text@.len() as int),
            0 <= i < cst.inner@.len(),
            s@ == s_cst(text@, self.option, cst@.inner[i as int], depth as int),
            cnt <= i,
            cst@.rule == crate::cst::Rule::let_rec_inner || cst@.rule == crate::cst::Rule::let_rec_matcharm || cst@.rule == crate::cst::Rule::match_arm || cst@.rule == crate::cst::Rule::match_expr || cst@.rule == crate::cst::Rule::ctrl_if || cst@.rule == crate::cst::Rule::ctrl_while || cst@.rule == crate::cst::Rule::unary || cst@.rule == crate::cst::Rule::lambda,
        ensures
            r.0@ == step_acc(
                text@,
                self.option,
                cst@,
                depth as int,
                i as int,
                acc@,
                FoldSt { flag: flag, cnt: cnt as int },
            ),
            (FoldSt { flag: r.1, cnt: r.2 as int }) == step_st(
                text@,
                self.option,
                cst@,
                depth as int,
                i as int,
                acc@,
                FoldSt { flag: flag, cnt: cnt as int },
            ),
            r.2 <= i + 1,
        decreases *cst, 1int, 0int,
    {
        proof {
            lemma_view(*cst);
            reveal_strlit("= struct");
            reveal_strlit(" of ");
            reveal_strlit("|");
            reveal_strlit("while ");
            reveal_strlit(" do ");
            reveal_strlit("document");
            reveal_strlit(" match ");
            reveal_strlit(" with ");
            reveal_strlit(" else ");
            reveal_strlit(" then ");
            reveal_strlit("match ");
            reveal_strlit(" with");
            reveal_strlit(" ?-> ");
            reveal_strlit(" <- ");
            reveal_strlit(" :: ");
            reveal_strlit(" -> ");
            reveal_strlit(" in");
            reveal_strlit(" <-");
            reveal_strlit(" = ");
            reveal_strlit("if ");
            reveal_strlit("!{ ");
            reveal_strlit("let");
            reveal_strlit(" | ");
            reveal_strlit("'<");
            reveal_strlit("!(");
            reveal_strlit(": ");
            reveal_strlit(" (");
            reveal_strlit(" =");
            reveal_strlit("{ ");
            reveal_strlit(" }");
            reveal_strlit("| ");
            reveal_strlit("in");
            reveal_strlit("!");
            reveal_strlit(")");
            reveal_strlit(";");
            reveal_strlit("#");
            reveal_strlit("~");
            reveal_strlit("(");
            reveal_strlit("{");
            reveal_strlit("&");
        }
        let ghost cv = cst@;
        let ghost gt = text@;
        let o = self.option;
        let ghost pacc = acc@;
        let ghost pst = FoldSt { flag: flag, cnt: cnt as int };
        let child = &cst.inner[i];
        proof {
            assert(cv.inner[i as int] == cst.inner@[i as int]@);
            assert(cv.inner[i as int].wf(gt.len() as int));
            assert(cv.inner[i as int].rule == child.rule);
            assert(cv.inner[i as int].start == child.span.start as int);
            assert(cv.inner[i as int].end == child.span.end as int);
            if i > 0 {
                assert(cv.inner[i - 1] == cst.inner@[i - 1]@);
                assert(cv.inner[i - 1].rule == cst.inner@[i - 1].rule);
            }
            if i + 1 < cst.inner@.len() {
                assert(cv.inner[i + 1] == cst.inner@[i + 1]@);
                assert(cv.inner[i + 1].rule == cst.inner@[i + 1].rule);
            }
        }
        let n = cst.inner.len();
        let newline = nl_indent(&o, depth);
        let one = indent_of(&o, 1);
        let sp1 = single(B_SP);
        let mut acc = acc;
        let mut flag = flag;
        let mut cnt = cnt;
        match cst.rule {
                Rule::let_rec_inner => {
                    if acc.len() == 0 {
                        acc = s;
                    } else {
                        match child.rule {
                            Rule::pattern => {
                                acc = cat(acc, &s);
                            },
                            Rule::let_rec_matcharm => {
                                acc = cat(cat(cat(acc, &newline), &lit("| ")), &trim(&s));
                            },
                            Rule::type_expr => {
                                acc = cat(cat(acc, &lit(": ")), &s);
                                flag = true;
                            },
                            Rule::arg => {
                                if flag {
                                    acc = cat(cat(acc, &lit(" | ")), &s);
                                    flag = false;
                                } else {
                                    acc = cat(cat(acc, &sp1), &s);
                                }
                            },
                            Rule::expr => {
                                acc = cat(cat(acc, &lit(" = ")), &s);
                            },
                            _ => {
                                acc = cat(acc, &s);
                            },
                        }
                    }
                },
                Rule::let_rec_matcharm => {
                    if acc.len() == 0 {
                        acc = s;
                    } else {
                        match child.rule {
                            Rule::arg => {
                                acc = cat(cat(acc, &sp1), &s);
                            },
                            Rule::expr => {
                                acc = cat(cat(acc, &lit(" = ")), &s);
                            },
                            _ => {
                                acc = cat(acc, &s);
                            },
                        }
                    }
                },
                Rule::match_arm => {
                    if acc.len() == 0 {
                        acc = s;
                    } else {
                        match child.rule {
                            Rule::pat_as => {
                                acc = cat(cat(acc, &sp1), &s);
                            },
                            Rule::match_guard => {
                                acc = cat(cat(acc, &sp1), &s);
                            },
                            Rule::expr => {
                                acc = cat(cat(acc, &lit(" -> ")), &s);
                            },
                            _ => {
                                acc = cat(acc, &s);
                            },
                        }
                    }
                },
                Rule::match_expr => {
                    if acc.len() == 0 {
                        if matches!(child.rule, Rule::expr) {
                            acc = cat(cat(lit("match "), &s), &lit(" with"));
                        } else {
                            acc = s;
                        }
                    } else {
                        match child.rule {
                            Rule::expr => {
                                acc = cat(cat(cat(acc, &lit(" match ")), &s), &lit(" with"));
                            },
                            Rule::match_arm => {
                                acc = cat(cat(cat(acc, &newline), &lit("| ")), &s);
                            },
                            _ => {
                                acc = cat(acc, &s);
                            },
                        }
                    }
                },
                Rule::ctrl_if => {
                    match child.rule {
                        Rule::expr => {
                            if cnt == 0 {
                                acc = cat(cat(acc, &lit("if ")), &s);
                            } else if cnt == 1 {
                                acc = cat(cat(acc, &lit(" then ")), &s);
                            } else if cnt == 2 {
                                acc = cat(cat(acc, &lit(" else ")), &s);
                            } else {
                                acc = cat(acc, &s);
                            }
                            cnt += 1;
                        },
                        _ => {
                            acc = cat(acc, &s);
                        },
                    }
                },
                Rule::ctrl_while => {
                    match child.rule {
                        Rule::expr => {
                            if cnt == 0 {
                                acc = cat(cat(acc, &lit("while ")), &s);
                            } else if cnt == 1 {
                                acc = cat(cat(acc, &lit(" do ")), &s);
                            } else {
                                acc = cat(acc, &s);
                            }
                            cnt += 1;
                        },
                        _ => {
                            acc = cat(acc, &s);
                        },
                    }
                },
                Rule::unary => {
                    let s1 = if matches!(child.rule, Rule::bin_operator) || matches!(
                        child.rule,
                        Rule::expr,
                    ) {
                        cat(cat(lit("("), &s), &lit(")"))
                    } else {
                        s
                    };
                    if acc.len() == 0 {
                        acc = s1;
                    } else if eq_bytes(&acc, &lit("!")) || eq_bytes(&acc, &lit("&")) || eq_bytes(
                        &acc,
                        &lit("~"),
                    ) {
                        acc = cat(acc, &s1);
                    } else {
                        match child.rule {
                            Rule::bin_operator | Rule::expr => {
                                acc = cat(acc, &s1);
                            },
                            _ => {
                                acc = cat(cat(acc, &lit("#")), &s1);
                            },
                        }
                    }
                },
                Rule::lambda => {
                    match child.rule {
                        Rule::pattern => {
                            acc = cat(cat(acc, &sp1), &s);
                        },
                        Rule::comments => {
                            acc = cat(acc, &s);
                        },
                        _ => {
                            acc = cat(cat(acc, &lit(" -> ")), &s);
                        },
                    }
                },

            _ => {
                proof {
                    assert(false);
                }
            },
        }
        proof {
            assert(acc@ == step_acc(gt, o, cv, depth as int, i as int, pacc, pst));
            assert((FoldSt { flag: flag, cnt: cnt as int }) == step_st(
                gt,
                o,
                cv,
                depth as int,
                i as int,
                pacc,
                pst,
            ));
        }
        (acc, flag, cnt)
    }


    /// One joining step of `to_string_cst_inner`, for part of the kinds.
    #[verifier::rlimit(100)]
    fn fold_step_D(
        &self,
        text: &Vec<u8>,
        cst: &CstNode,
        depth: usize,
        i: usize,
        s: Vec<u8>,
        acc: Vec<u8>,
        flag: bool,
        cnt: usize,
    ) -> (r: (Vec<u8>, bool, usize))
        requires
            cst@.wf(text@.len() as int),
            0 <= i < cst.inner@.len(),
            s@ == s_cst(text@, self.option, cst@.inner[i as int], depth as int),
            cnt <= i,
            cst@.rule == crate::cst::Rule::record_unit || cst@.rule == crate::cst::Rule::type_record_unit || cst@.rule == crate::cst::Rule::type_application || cst@.rule == crate::cst::Rule::assignment || cst@.rule == crate::cst::Rule::application || cst@.rule == crate::cst::Rule::bind_stmt || cst@.rule == crate::cst::Rule::type_expr || cst@.rule == crate::cst::Rule::module_stmt,
        ensures
            r.0@ == step_acc(
                text@,
                self.option,
                cst@,
                depth as int,
                i as int,
                acc@,
                FoldSt { flag: flag, cnt: cnt as int },
            ),
            (FoldSt { flag: r.1, cnt: r.2 as int }) == step_st(
                text@,
                self.option,
                cst@,
                depth as int,
                i as int,
                acc@,
                FoldSt { flag: flag, cnt: cnt as int },
            ),
            r.2 <= i + 1,
        decreases *cst, 1int, 0int,
    {
        proof {
            lemma_view(*cst);
            reveal_strlit("= struct");
            reveal_strlit(" of ");
            reveal_strlit("|");
            reveal_strlit("while ");
            reveal_strlit(" do ");
            reveal_strlit("document");
            reveal_strlit(" match ");
            reveal_strlit(" with ");
            reveal_strlit(" else ");
            reveal_strlit(" then ");
            reveal_strlit("match ");
            reveal_strlit(" with");
            reveal_strlit(" ?-> ");
            reveal_strlit(" <- ");
            reveal_strlit(" :: ");
            reveal_strlit(" -> ");
            reveal_strlit(" in");
            reveal_strlit(" <-");
            reveal_strlit(" = ");
            reveal_strlit("if ");
            reveal_strlit("!{ ");
            reveal_strlit("let");
            reveal_strlit(" | ");
            reveal_strlit("'<");
            reveal_strlit("!(");
            reveal_strlit(": ");
            reveal_strlit(" (");
            reveal_strlit(" =");
            reveal_strlit("{ ");
            reveal_strlit(" }");
            reveal_strlit("| ");
            reveal_strlit("in");
            reveal_strlit("!");
            reveal_strlit(")");
            reveal_strlit(";");
            reveal_strlit("#");
            reveal_strlit("~");
            reveal_strlit("(");
            reveal_strlit("{");
            reveal_strlit("&");
        }
        let ghost cv = cst@;
        let ghost gt = text@;
        let o = self.option;
        let ghost pacc = acc@;
        let ghost pst = FoldSt { flag: flag, cnt: cnt as int };
        let child = &cst.inner[i];
        proof {
            assert(cv.inner[i as int] == cst.inner@[i as int]@);
            assert(cv.inner[i as int].wf(gt.len() as int));
            assert(cv.inner[i as int].rule == child.rule);
            assert(cv.inner[i as int].start == child.span.start as int);
            assert(cv.inner[i as int].end == child.span.end as int);
            if i > 0 {
                assert(cv.inner[i - 1] == cst.inner@[i - 1]@);
                assert(cv.inner[i - 1].rule == cst.inner@[i - 1].rule);
            }
            if i + 1 < cst.inner@.len() {
                assert(cv.inner[i + 1] == cst.inner@[i + 1]@);
                assert(cv.inner[i + 1].rule == cst.inner@[i + 1].rule);
            }
        }
        let n = cst.inner.len();
        let newline = nl_indent(&o, depth);
        let one = indent_of(&o, 1);
        let sp1 = single(B_SP);
        let mut acc = acc;
        let mut flag = flag;
        let mut cnt = cnt;
        match cst.rule {
                Rule::record_unit => {
                    if acc.len() == 0 {
                        acc = s;
                    } else {
                        match child.rule {
                            Rule::var_ptn => {
                                acc = cat(cat(acc, &sp1), &s);
                            },
                            Rule::expr => {
                                acc = cat(cat(acc, &lit(" = ")), &s);
                            },
                            _ => {
                                acc = cat(acc, &s);
                            },
                        }
                    }
                },
                Rule::type_record_unit => {
                    if acc.len() == 0 {
                        acc = s;
                    } else {
                        match child.rule {
                            Rule::var => {
                                acc = cat(cat(acc, &sp1), &s);
                            },
                            Rule::type_expr => {
                                acc = cat(cat(acc, &lit(": ")), &s);
                            },
                            _ => {
                                acc = cat(acc, &s);
                            },
                        }
                    }
                },
                Rule::type_application => {
                    if acc.len() > 0 {
                        acc = cat(acc, &sp1);
                    }
                    if matches!(child.rule, Rule::type_expr) {
                        acc = cat(cat(cat(acc, &lit("(")), &s), &lit(")"));
                    } else {
                        acc = cat(acc, &s);
                    }
                },
                Rule::assignment => {
                    if acc.len() == 0 {
                        acc = s;
                    } else {
                        match child.rule {
                            Rule::var => {
                                acc = cat(cat(acc, &sp1), &s);
                            },
                            Rule::dyadic_expr
                            | Rule::unary_operator_expr
                            | Rule::application
                            | Rule::unary
                            | Rule::variant_constructor => {
                                acc = cat(cat(acc, &lit(" <- ")), &s);
                            },
                            _ => {
                                acc = cat(acc, &s);
                            },
                        }
                    }
                },
                Rule::application => {
                    if i == 0 {
                        acc = s;
                    } else {
                        proof {
                            assert(cv.inner[0] == cst.inner@[0]@);
                            assert(cv.inner[0].wf(gt.len() as int));
                        }
                        let first = self.to_string_cst(text, &cst.inner[0], depth);
                        if !eq_bytes(&first, &lit("document")) {
                            acc = cat(cat(acc, &sp1), &s);
                        } else {
                            acc = cat(acc, &s);
                        }
                    }
                },
                Rule::bind_stmt => {
                    match child.rule {
                        Rule::let_stmt
                        | Rule::let_rec_stmt
                        | Rule::let_math_stmt
                        | Rule::let_mutable_stmt
                        | Rule::open_stmt => {
                            if i == 0 {
                                acc = cat(cat(acc, &s), &lit(" in"));
                            } else {
                                acc = cat(cat(cat(acc, &newline), &s), &lit(" in"));
                            }
                        },
                        Rule::expr => {
                            let pre = if i > 0 && matches!(cst.inner[i - 1].rule, Rule::comments) {
                                acc
                            } else if starts_with(&s, &lit("let")) || contains_nl(&s) {
                                cat(acc, &newline)
                            } else if fb(&s) == B_LBRACE || starts_with(&s, &lit("'<")) {
                                cat(acc, &sp1)
                            } else {
                                cat(acc, &newline)
                            };
                            if starts_with(&s, &lit("let")) {
                                acc = cat(pre, &crate::bytes::trim_start(&s));
                            } else if contains_nl(&s) {
                                let s2 = self.to_string_cst(text, child, bump_depth(depth));
                                acc = cat(cat(pre, &one), &crate::bytes::trim_start(&s2));
                            } else {
                                acc = cat(pre, &crate::bytes::trim_start(&s));
                            }
                        },
                        Rule::comments => {
                            if ends_with(&acc, &lit("in")) {
                                acc = cat(cat(acc, &newline), &s);
                            } else {
                                acc = cat(acc, &s);
                            }
                        },
                        _ => {
                            acc = cat(acc, &s);
                        },
                    }
                },
                Rule::type_expr => {
                    if i == 0 {
                        acc = s;
                    } else {
                        let sep = if matches!(cst.inner[i - 1].rule, Rule::type_optional) {
                            &lit(" ?-> ")
                        } else {
                            &lit(" -> ")
                        };
                        acc = cat(cat(acc, sep), &s);
                    }
                },
                Rule::module_stmt => {
                    if i == 0 {
                        acc = s;
                    } else {
                        match child.rule {
                            Rule::sig_stmt => {
                                acc = cat(cat(acc, &lit(": ")), &s);
                            },
                            Rule::struct_stmt => {
                                acc = cat(cat(acc, &lit(" = ")), &s);
                            },
                            _ => {
                                acc = cat(acc, &s);
                            },
                        }
                    }
                },

            _ => {
                proof {
                    assert(false);
                }
            },
        }
        proof {
            assert(acc@ == step_acc(gt, o, cv, depth as int, i as int, pacc, pst));
            assert((FoldSt { flag: flag, cnt: cnt as int }) == step_st(
                gt,
                o,
                cv,
                depth as int,
                i as int,
                pacc,
                pst,
            ));
        }
        (acc, flag, cnt)
    }


    /// One joining step of `to_string_cst_inner`, for part of the kinds.
    #[verifier::rlimit(100)]
    fn fold_step_E(
        &self,
        text: &Vec<u8>,
        cst: &CstNode,
        depth: usize,
        i: usize,
        s: Vec<u8>,
        acc: Vec<u8>,
        flag: bool,
        cnt: usize,
    ) -> (r: (Vec<u8>, bool, usize))
        requires
            cst@.wf(text@.len() as int),
            0 <= i < cst.inner@.len(),
            s@ == s_cst(text@, self.option, cst@.inner[i as int], depth as int),
            cnt <= i,
            cst@.rule == crate::cst::Rule::struct_stmt || cst@.rule == crate::cst::Rule::sig_stmt || cst@.rule == crate::cst::Rule::horizontal_single || cst@.rule == crate::cst::Rule::preamble || cst@.rule == crate::cst::Rule::horizontal_list || cst@.rule == crate::cst::Rule::list,
        ensures
            r.0@ == step_acc(
                text@,
                self.option,
                cst@,
                depth as int,
                i as int,
                acc@,
                FoldSt { flag: flag, cnt: cnt as int },
            ),
            (FoldSt { flag: r.1, cnt: r.2 as int }) == step_st(
                text@,
                self.option,
                cst@,
                depth as int,
                i as int,
                acc@,
                FoldSt { flag: flag, cnt: cnt as int },
            ),
            r.2 <= i + 1,
        decreases *cst, 1int, 0int,
    {
        proof {
            lemma_view(*cst);
            reveal_strlit("= struct");
            reveal_strlit(" of ");
            reveal_strlit("|");
            reveal_strlit("while ");
            reveal_strlit(" do ");
            reveal_strlit("document");
            reveal_strlit(" match ");
            reveal_strlit(" with ");
            reveal_strlit(" else ");
            reveal_strlit(" then ");
            reveal_strlit("match ");
            reveal_strlit(" with");
            reveal_strlit(" ?-> ");
            reveal_strlit(" <- ");
            reveal_strlit(" :: ");
            reveal_strlit(" -> ");
            reveal_strlit(" in");
            reveal_strlit(" <-");
            reveal_strlit(" = ");
            reveal_strlit("if ");
            reveal_strlit("!{ ");
            reveal_strlit("let");
            reveal_strlit(" | ");
            reveal_strlit("'<");
            reveal_strlit("!(");
            reveal_strlit(": ");
            reveal_strlit(" (");
            reveal_strlit(" =");
            reveal_strlit("{ ");
            reveal_strlit(" }");
            reveal_strlit("| ");
            reveal_strlit("in");
            reveal_strlit("!");
            reveal_strlit(")");
            reveal_strlit(";");
            reveal_strlit("#");
            reveal_strlit("~");
            reveal_strlit("(");
            reveal_strlit("{");
            reveal_strlit("&");
        }
        let ghost cv = cst@;
        let ghost gt = text@;
        let o = self.option;
        let ghost pacc = acc@;
        let ghost pst = FoldSt { flag: flag, cnt: cnt as int };
        let child = &cst.inner[i];
        proof {
            assert(cv.inner[i as int] == cst.inner@[i as int]@);
            assert(cv.inner[i as int].wf(gt.len() as int));
            assert(cv.inner[i as int].rule == child.rule);
            assert(cv.inner[i as int].start == child.span.start as int);
            assert(cv.inner[i as int].end == child.span.end as int);
            if i > 0 {
                assert(cv.inner[i - 1] == cst.inner@[i - 1]@);
                assert(cv.inner[i - 1].rule == cst.inner@[i - 1].rule);
            }
            if i + 1 < cst.inner@.len() {
                assert(cv.inner[i + 1] == cst.inner@[i + 1]@);
                assert(cv.inner[i + 1].rule == cst.inner@[i + 1].rule);
            }
        }
        let n = cst.inner.len();
        let newline = nl_indent(&o, depth);
        let one = indent_of(&o, 1);
        let sp1 = single(B_SP);
        let mut acc = acc;
        let mut flag = flag;
        let mut cnt = cnt;
        match cst.rule {
                Rule::struct_stmt => {
                    let check = cat(single(B_NL), &newline);
                    if acc.len() == 0 || ends_with(&acc, &check) {
                    } else if i > 0 && matches!(cst.inner[i - 1].rule, Rule::comments) {
                    } else if i > 0 && !rules_eq(cst.inner[i - 1].rule, child.rule) {
                        acc = cat(cat(acc, &single(B_NL)), &newline);
                    } else if !contains_nl(&s) {
                        acc = cat(acc, &newline);
                    } else if i > 0 && (matches!(cst.inner[i - 1].rule, Rule::let_stmt) || matches!(
                        cst.inner[i - 1].rule,
                        Rule::let_rec_stmt,
                    )) {
                        acc = cat(cat(acc, &single(B_NL)), &newline);
                    } else {
                        match child.rule {
                            Rule::let_stmt | Rule::let_rec_stmt => {
                                acc = cat(cat(acc, &single(B_NL)), &newline);
                            },
                            Rule::comments => {},
                            _ => {
                                acc = cat(acc, &newline);
                            },
                        }
                    }
                    acc = cat(acc, &s);
                },
                Rule::sig_stmt => {
                    match child.rule {
                        Rule::module_name => {
                            acc = cat(cat(acc, &sp1), &s);
                        },
                        Rule::struct_stmt => {
                            acc = cat(cat(acc, &lit("= struct")), &s);
                        },
                        _ => {
                            acc = cat(acc, &s);
                        },
                    }
                },
                Rule::horizontal_single => {
                    if acc.len() == 0 {
                        acc = s;
                    } else if matches!(child.rule, Rule::regular_text) && trim(&s).len() == 0 {
                        if !crate::bytes::ws_byte(lb(&acc)) {
                            acc = cat(acc, &s);
                        }
                    } else if matches!(child.rule, Rule::regular_text) {
                        if crate::bytes::ws_byte(lb(&acc)) {
                            acc = cat(acc, &crate::bytes::trim_start(&s));
                        } else {
                            acc = cat(acc, &s);
                        }
                    } else if matches!(child.rule, Rule::comments) {
                        acc = cat(cat(trim_end(&acc), &newline), &s);
                    } else {
                        acc = cat(acc, &s);
                    }
                },
                Rule::preamble => {
                    let s1 = trim(&s);
                    if acc.len() == 0 {
                        acc = s1;
                    } else if s1.len() == 0 {
                    } else {
                        match child.rule {
                            Rule::module_stmt => {
                                acc = cat(cat(acc, &pair(B_NL, B_NL)), &s1);
                            },
                            _ => {
                                acc = cat(cat(acc, &single(B_NL)), &s1);
                            },
                        }
                    }
                },
                // The joining fold for an inline-run list (bars and line
                // breaks between items); the kind's decoration renders from
                // the source lines instead and takes precedence.
                Rule::horizontal_list => {
                    if matches!(child.rule, Rule::comments) {
                        acc = cat(acc, &s);
                    } else if s.len() == 0 {
                    } else {
                        acc = cat(cat(cat(cat(acc, &sp1), &s), &newline), &lit("|"));
                    }
                },
                Rule::list => {
                    let sep = cat(single(B_SEMI), &newline);
                    if matches!(child.rule, Rule::comments) {
                        acc = cat(acc, &s);
                    } else if acc.len() == 0 {
                        acc = cat(s, &sep);
                    } else if s.len() == 0 {
                    } else {
                        acc = cat(cat(acc, &s), &sep);
                    }
                },

            _ => {
                proof {
                    assert(false);
                }
            },
        }
        proof {
            assert(acc@ == step_acc(gt, o, cv, depth as int, i as int, pacc, pst));
            assert((FoldSt { flag: flag, cnt: cnt as int }) == step_st(
                gt,
                o,
                cv,
                depth as int,
                i as int,
                pacc,
                pst,
            ));
        }
        (acc, flag, cnt)
    }


    /// One joining step of `to_string_cst_inner`, for part of the kinds.
    #[verifier::rlimit(100)]
    fn fold_step_F(
        &self,
        text: &Vec<u8>,
        cst: &CstNode,
        depth: usize,
        i: usize,
        s: Vec<u8>,
        acc: Vec<u8>,
        flag: bool,
        cnt: usize,
    ) -> (r: (Vec<u8>, bool, usize))
        requires
            cst@.wf(text@.len() as int),
            0 <= i < cst.inner@.len(),
            s@ == s_cst(text@, self.option, cst@.inner[i as int], depth as int),
            cnt <= i,
            cst@.rule != crate::cst::Rule::application,
            cst@.rule != crate::cst::Rule::assignment,
            cst@.rule != crate::cst::Rule::bind_stmt,
            cst@.rule != crate::cst::Rule::cmd_expr_option,
            cst@.rule != crate::cst::Rule::constraint,
            cst@.rule != crate::cst::Rule::ctrl_if,
            cst@.rule != crate::cst::Rule::ctrl_while,
            cst@.rule != crate::cst::Rule::horizontal_list,
            cst@.rule != crate::cst::Rule::horizontal_single,
            cst@.rule != crate::cst::Rule::lambda,
            cst@.rule != crate::cst::Rule::let_block_stmt_ctx,
            cst@.rule != crate::cst::Rule::let_block_stmt_noctx,
            cst@.rule != crate::cst::Rule::let_inline_stmt_ctx,
            cst@.rule != crate::cst::Rule::let_inline_stmt_noctx,
            cst@.rule != crate::cst::Rule::let_math_stmt,
            cst@.rule != crate::cst::Rule::let_mutable_stmt,
            cst@.rule != crate::cst::Rule::let_rec_inner,
            cst@.rule != crate::cst::Rule::let_rec_matcharm,
            cst@.rule != crate::cst::Rule::let_rec_stmt,
            cst@.rule != crate::cst::Rule::let_stmt,
            cst@.rule != crate::cst::Rule::list,
            cst@.rule != crate::cst::Rule::match_arm,
            cst@.rule != crate::cst::Rule::match_expr,
            cst@.rule != crate::cst::Rule::math_cmd_expr_arg,
            cst@.rule != crate::cst::Rule::math_cmd_expr_option,
            cst@.rule != crate::cst::Rule::module_stmt,
            cst@.rule != crate::cst::Rule::pat_cons,
            cst@.rule != crate::cst::Rule::pat_variant,
            cst@.rule != crate::cst::Rule::preamble,
            cst@.rule != crate::cst::Rule::record,
            cst@.rule != crate::cst::Rule::record_unit,
            cst@.rule != crate::cst::Rule::sig_direct_stmt,
            cst@.rule != crate::cst::Rule::sig_stmt,
            cst@.rule != crate::cst::Rule::sig_val_stmt,
            cst@.rule != crate::cst::Rule::struct_stmt,
            cst@.rule != crate::cst::Rule::type_application,
            cst@.rule != crate::cst::Rule::type_expr,
            cst@.rule != crate::cst::Rule::type_inner,
            cst@.rule != crate::cst::Rule::type_record,
            cst@.rule != crate::cst::Rule::type_record_unit,
            cst@.rule != crate::cst::Rule::type_stmt,
            cst@.rule != crate::cst::Rule::type_variant,
            cst@.rule != crate::cst::Rule::unary,
            cst@.rule != crate::cst::Rule::variant_constructor,
        ensures
            r.0@ == step_acc(
                text@,
                self.option,
                cst@,
                depth as int,
                i as int,
                acc@,
                FoldSt { flag: flag, cnt: cnt as int },
            ),
            (FoldSt { flag: r.1, cnt: r.2 as int }) == step_st(
                text@,
                self.option,
                cst@,
                depth as int,
                i as int,
                acc@,
                FoldSt { flag: flag, cnt: cnt as int },
            ),
            r.2 <= i + 1,
        decreases *cst, 1int, 0int,
    {
        proof {
            lemma_view(*cst);
            reveal_strlit("= struct");
            reveal_strlit(" of ");
            reveal_strlit("|");
            reveal_strlit("while ");
            reveal_strlit(" do ");
            reveal_strlit("document");
            reveal_strlit(" match ");
            reveal_strlit(" with ");
            reveal_strlit(" else ");
            reveal_strlit(" then ");
            reveal_strlit("match ");
            reveal_strlit(" with");
            reveal_strlit(" ?-> ");
            reveal_strlit(" <- ");
            reveal_strlit(" :: ");
            reveal_strlit(" -> ");
            reveal_strlit(" in");
            reveal_strlit(" <-");
            reveal_strlit(" = ");
            reveal_strlit("if ");
            reveal_strlit("!{ ");
            reveal_strlit("let");
            reveal_strlit(" | ");
            reveal_strlit("'<");
            reveal_strlit("!(");
            reveal_strlit(": ");
            reveal_strlit(" (");
            reveal_strlit(" =");
            reveal_strlit("{ ");
            reveal_strlit(" }");
            reveal_strlit("| ");
            reveal_strlit("in");
            reveal_strlit("!");
            reveal_strlit(")");
            reveal_strlit(";");
            reveal_strlit("#");
            reveal_strlit("~");
            reveal_strlit("(");
            reveal_strlit("{");
            reveal_strlit("&");
        }
        let ghost cv = cst@;
        let ghost gt = text@;
        let o = self.option;
        let ghost pacc = acc@;
        let ghost pst = FoldSt { flag: flag, cnt: cnt as int };
        let child = &cst.inner[i];
        proof {
            assert(cv.inner[i as int] == cst.inner@[i as int]@);
            assert(cv.inner[i as int].wf(gt.len() as int));
            assert(cv.inner[i as int].rule == child.rule);
            assert(cv.inner[i as int].start == child.span.start as int);
            assert(cv.inner[i as int].end == child.span.end as int);
            if i > 0 {
                assert(cv.inner[i - 1] == cst.inner@[i - 1]@);
                assert(cv.inner[i - 1].rule == cst.inner@[i - 1].rule);
            }
            if i + 1 < cst.inner@.len() {
                assert(cv.inner[i + 1] == cst.inner@[i + 1]@);
                assert(cv.inner[i + 1].rule == cst.inner@[i + 1].rule);
            }
        }
        let n = cst.inner.len();
        let newline = nl_indent(&o, depth);
        let one = indent_of(&o, 1);
        let sp1 = single(B_SP);
        let mut acc = acc;
        let mut flag = flag;
        let mut cnt = cnt;
        match cst.rule {
                Rule::block_cmd | Rule::inline_cmd => {
                    if acc.len() == 0 {
                        acc = s;
                    } else if s.len() == 0 {
                    } else if ends_with(&acc, &newline) {
                        acc = cat(acc, &s);
                    } else if matches!(child.rule, Rule::cmd_text_arg) && !o.command_args_space {
                        acc = cat(acc, &s);
                    } else {
                        acc = cat(cat(acc, &sp1), &s);
                    }
                },
                Rule::math_single => {
                    if acc.len() == 0 {
                        acc = s;
                    } else if s.len() == 0 {
                    } else if ends_with(&acc, &newline) {
                        acc = cat(acc, &s);
                    } else if fb(&s) == B_COMMA || (alpha_byte(lb(&acc)) && acc.len() >= 2 && {
                        let b2 = acc[acc.len() - 2];
                        crate::bytes::ws_byte(b2)
                    } && alpha_byte(fb(&s))) {
                        acc = cat(acc, &s);
                    } else {
                        acc = cat(cat(acc, &sp1), &s);
                    }
                },
                Rule::math_token => {
                    if acc.len() == 0 {
                        acc = s;
                    } else if s.len() == 0 {
                    } else if ends_with(&acc, &newline) {
                        acc = cat(acc, &s);
                    } else if matches!(child.rule, Rule::math_sup) || matches!(
                        child.rule,
                        Rule::math_sub,
                    ) {
                        acc = cat(acc, &s);
                    } else {
                        acc = cat(cat(acc, &sp1), &s);
                    }
                },
                Rule::vertical => {
                    if acc.len() == 0 {
                        acc = s;
                    } else if s.len() == 0 {
                    } else if ends_with(&acc, &newline) {
                        acc = cat(acc, &s);
                    } else {
                        acc = cat(cat(acc, &newline), &s);
                    }
                    acc = trim_end(&acc);
                },
                _ => {
                    let sep = sep_exec(&o, cst.rule, depth);
                    if acc.len() == 0 {
                        acc = s;
                    } else if s.len() == 0 {
                    } else if ends_with(&acc, &newline) {
                        acc = cat(acc, &s);
                    } else if fb(&s) == B_NL {
                        acc = cat(acc, &s);
                    } else {
                        acc = cat(cat(acc, &sep), &s);
                    }
                    if matches!(cst.rule, Rule::program_saty) && matches!(
                        child.rule,
                        Rule::preamble,
                    ) {
                        acc = cat(cat(cat(acc, &single(B_NL)), &lit("in")), &pair(B_NL, B_NL));
                    }
                },

        }
        proof {
            assert(acc@ == step_acc(gt, o, cv, depth as int, i as int, pacc, pst));
            assert((FoldSt { flag: flag, cnt: cnt as int }) == step_st(
                gt,
                o,
                cv,
                depth as int,
                i as int,
                pacc,
                pst,
            ));
        }
        (acc, flag, cnt)
    }

}

fn dup(v: &Vec<u8>) -> (r: Vec<u8>)
    ensures
        r@ == v@,
{
    let mut r: Vec<u8> = Vec::new();
    crate::bytes::app(&mut r, v);
    r
}

fn rules_eq(a: Rule, b: Rule) -> (r: bool)
    ensures
        r == (a == b),
{
    a == b
}

fn alpha_byte(b: u8) -> (r: bool)
    ensures
        r == is_alpha(b),
{
    (65 <= b && b <= 90) || (97 <= b && b <= 122) || b >= 128
}

fn sep_exec(o: &OptionData, rule: Rule, depth: usize) -> (r: Vec<u8>)
    ensures
        r@ == sep_of(*o, rule, depth as int),
{
    proof {
        reveal_strlit(" * ");
        reveal_strlit(" ?-> ");
        reveal_strlit(", ");
        reveal_strlit(";");
    }
    match rule {
        Rule::type_prod => lit(" * "),
        Rule::type_optional => lit(" ?-> "),
        Rule::tuple => lit(", "),
        Rule::type_block_cmd | Rule::type_inline_cmd | Rule::type_math_cmd => cat(
            lit(";"),
            &nl_indent(o, depth),
        ),
        Rule::horizontal_bullet_list => nl_indent(o, depth),
        _ => single(B_SP),
    }
}

} // verus!
