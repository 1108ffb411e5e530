//! Turning LaTeX math into readable Unicode text for the terminal.

use crate::strs::{
    extend_all, extend_range, find, find_from, find_seq_from, from_chars, is_ascii_digit, lemma_find_suffix,
    is_first_match, lemma_first_match_none, lemma_first_match_unique, lemma_no_first_match,
    matches_at, replace_all, replace_all_vec, slice_of, to_chars,
};
use vstd::prelude::*;

verus! {

/// Number of entries in the substitution table.
pub const SUBSTITUTION_COUNT: usize = 96;

/// Number of layout-only commands that are dropped.
pub const WRAPPER_COUNT: usize = 6;

/// The LaTeX-to-Unicode substitution table, entry `k`.
pub open spec fn latex_substitution(k: int) -> (Seq<char>, Seq<char>) {
    if k == 0 {
        ("\\alpha"@, "α"@)
    } else if k == 1 {
        ("\\beta"@, "β"@)
    } else if k == 2 {
        ("\\gamma"@, "γ"@)
    } else if k == 3 {
        ("\\delta"@, "δ"@)
    } else if k == 4 {
        ("\\epsilon"@, "ε"@)
    } else if k == 5 {
        ("\\zeta"@, "ζ"@)
    } else if k == 6 {
        ("\\eta"@, "η"@)
    } else if k == 7 {
        ("\\theta"@, "θ"@)
    } else if k == 8 {
        ("\\iota"@, "ι"@)
    } else if k == 9 {
        ("\\kappa"@, "κ"@)
    } else if k == 10 {
        ("\\lambda"@, "λ"@)
    } else if k == 11 {
        ("\\mu"@, "μ"@)
    } else if k == 12 {
        ("\\nu"@, "ν"@)
    } else if k == 13 {
        ("\\xi"@, "ξ"@)
    } else if k == 14 {
        ("\\pi"@, "π"@)
    } else if k == 15 {
        ("\\rho"@, "ρ"@)
    } else if k == 16 {
        ("\\sigma"@, "σ"@)
    } else if k == 17 {
        ("\\tau"@, "τ"@)
    } else if k == 18 {
        ("\\upsilon"@, "υ"@)
    } else if k == 19 {
        ("\\phi"@, "φ"@)
    } else if k == 20 {
        ("\\chi"@, "χ"@)
    } else if k == 21 {
        ("\\psi"@, "ψ"@)
    } else if k == 22 {
        ("\\omega"@, "ω"@)
    } else if k == 23 {
        ("\\Gamma"@, "Γ"@)
    } else if k == 24 {
        ("\\Delta"@, "Δ"@)
    } else if k == 25 {
        ("\\Theta"@, "Θ"@)
    } else if k == 26 {
        ("\\Lambda"@, "Λ"@)
    } else if k == 27 {
        ("\\Xi"@, "Ξ"@)
    } else if k == 28 {
        ("\\Pi"@, "Π"@)
    } else if k == 29 {
        ("\\Sigma"@, "Σ"@)
    } else if k == 30 {
        ("\\Phi"@, "Φ"@)
    } else if k == 31 {
        ("\\Psi"@, "Ψ"@)
    } else if k == 32 {
        ("\\Omega"@, "Ω"@)
    } else if k == 33 {
        ("\\sum"@, "Σ"@)
    } else if k == 34 {
        ("\\prod"@, "∏"@)
    } else if k == 35 {
        ("\\int"@, "∫"@)
    } else if k == 36 {
        ("\\partial"@, "∂"@)
    } else if k == 37 {
        ("\\nabla"@, "∇"@)
    } else if k == 38 {
        ("\\infty"@, "∞"@)
    } else if k == 39 {
        ("\\sqrt"@, "√"@)
    } else if k == 40 {
        ("\\pm"@, "±"@)
    } else if k == 41 {
        ("\\times"@, "×"@)
    } else if k == 42 {
        ("\\div"@, "÷"@)
    } else if k == 43 {
        ("\\cdots"@, "⋯"@)
    } else if k == 44 {
        ("\\leq"@, "≤"@)
    } else if k == 45 {
        ("\\geq"@, "≥"@)
    } else if k == 46 {
        ("\\neq"@, "≠"@)
    } else if k == 47 {
        ("\\approx"@, "≈"@)
    } else if k == 48 {
        ("\\equiv"@, "≡"@)
    } else if k == 49 {
        ("\\in"@, "∈"@)
    } else if k == 50 {
        ("\\notin"@, "∉"@)
    } else if k == 51 {
        ("\\subseteq"@, "⊆"@)
    } else if k == 52 {
        ("\\supseteq"@, "⊇"@)
    } else if k == 53 {
        ("\\subset"@, "⊂"@)
    } else if k == 54 {
        ("\\supset"@, "⊃"@)
    } else if k == 55 {
        ("\\cup"@, "∪"@)
    } else if k == 56 {
        ("\\cap"@, "∩"@)
    } else if k == 57 {
        ("\\forall"@, "∀"@)
    } else if k == 58 {
        ("\\exists"@, "∃"@)
    } else if k == 59 {
        ("\\neg"@, "¬"@)
    } else if k == 60 {
        ("\\wedge"@, "∧"@)
    } else if k == 61 {
        ("\\vee"@, "∨"@)
    } else if k == 62 {
        ("\\rightarrow"@, "→"@)
    } else if k == 63 {
        ("\\leftarrow"@, "←"@)
    } else if k == 64 {
        ("\\Rightarrow"@, "⇒"@)
    } else if k == 65 {
        ("\\Leftarrow"@, "⇐"@)
    } else if k == 66 {
        ("\\leftrightarrow"@, "↔"@)
    } else if k == 67 {
        ("\\Leftrightarrow"@, "⇔"@)
    } else if k == 68 {
        ("\\to"@, "→"@)
    } else if k == 69 {
        ("\\mapsto"@, "↦"@)
    } else if k == 70 {
        ("\\ldots"@, "…"@)
    } else if k == 71 {
        ("\\cdot"@, "·"@)
    } else if k == 72 {
        ("\\vdots"@, "⋮"@)
    } else if k == 73 {
        ("\\ddots"@, "⋱"@)
    } else if k == 74 {
        ("^0"@, "⁰"@)
    } else if k == 75 {
        ("^1"@, "¹"@)
    } else if k == 76 {
        ("^2"@, "²"@)
    } else if k == 77 {
        ("^3"@, "³"@)
    } else if k == 78 {
        ("^4"@, "⁴"@)
    } else if k == 79 {
        ("^5"@, "⁵"@)
    } else if k == 80 {
        ("^6"@, "⁶"@)
    } else if k == 81 {
        ("^7"@, "⁷"@)
    } else if k == 82 {
        ("^8"@, "⁸"@)
    } else if k == 83 {
        ("^9"@, "⁹"@)
    } else if k == 84 {
        ("^n"@, "ⁿ"@)
    } else if k == 85 {
        ("^i"@, "ⁱ"@)
    } else if k == 86 {
        ("_0"@, "₀"@)
    } else if k == 87 {
        ("_1"@, "₁"@)
    } else if k == 88 {
        ("_2"@, "₂"@)
    } else if k == 89 {
        ("_3"@, "₃"@)
    } else if k == 90 {
        ("_4"@, "₄"@)
    } else if k == 91 {
        ("_5"@, "₅"@)
    } else if k == 92 {
        ("_6"@, "₆"@)
    } else if k == 93 {
        ("_7"@, "₇"@)
    } else if k == 94 {
        ("_8"@, "₈"@)
    } else {
        ("_9"@, "₉"@)
    }
}

/// Entry `k` of the substitution table.
fn substitution(k: usize) -> (r: (&'static str, &'static str))
    requires
        k < SUBSTITUTION_COUNT,
    ensures
        r.0@ == latex_substitution(k as int).0,
        r.1@ == latex_substitution(k as int).1,
        r.0@.len() > 0,
{
    if k == 0 {
        proof {
            reveal_strlit("\\alpha");
        }
        ("\\alpha", "α")
    } else if k == 1 {
        proof {
            reveal_strlit("\\beta");
        }
        ("\\beta", "β")
    } else if k == 2 {
        proof {
            reveal_strlit("\\gamma");
        }
        ("\\gamma", "γ")
    } else if k == 3 {
        proof {
            reveal_strlit("\\delta");
        }
        ("\\delta", "δ")
    } else if k == 4 {
        proof {
            reveal_strlit("\\epsilon");
        }
        ("\\epsilon", "ε")
    } else if k == 5 {
        proof {
            reveal_strlit("\\zeta");
        }
        ("\\zeta", "ζ")
    } else if k == 6 {
        proof {
            reveal_strlit("\\eta");
        }
        ("\\eta", "η")
    } else if k == 7 {
        proof {
            reveal_strlit("\\theta");
        }
        ("\\theta", "θ")
    } else if k == 8 {
        proof {
            reveal_strlit("\\iota");
        }
        ("\\iota", "ι")
    } else if k == 9 {
        proof {
            reveal_strlit("\\kappa");
        }
        ("\\kappa", "κ")
    } else if k == 10 {
        proof {
            reveal_strlit("\\lambda");
        }
        ("\\lambda", "λ")
    } else if k == 11 {
        proof {
            reveal_strlit("\\mu");
        }
        ("\\mu", "μ")
    } else if k == 12 {
        proof {
            reveal_strlit("\\nu");
        }
        ("\\nu", "ν")
    } else if k == 13 {
        proof {
            reveal_strlit("\\xi");
        }
        ("\\xi", "ξ")
    } else if k == 14 {
        proof {
            reveal_strlit("\\pi");
        }
        ("\\pi", "π")
    } else if k == 15 {
        proof {
            reveal_strlit("\\rho");
        }
        ("\\rho", "ρ")
    } else if k == 16 {
        proof {
            reveal_strlit("\\sigma");
        }
        ("\\sigma", "σ")
    } else if k == 17 {
        proof {
            reveal_strlit("\\tau");
        }
        ("\\tau", "τ")
    } else if k == 18 {
        proof {
            reveal_strlit("\\upsilon");
        }
        ("\\upsilon", "υ")
    } else if k == 19 {
        proof {
            reveal_strlit("\\phi");
        }
        ("\\phi", "φ")
    } else if k == 20 {
        proof {
            reveal_strlit("\\chi");
        }
        ("\\chi", "χ")
    } else if k == 21 {
        proof {
            reveal_strlit("\\psi");
        }
        ("\\psi", "ψ")
    } else if k == 22 {
        proof {
            reveal_strlit("\\omega");
        }
        ("\\omega", "ω")
    } else if k == 23 {
        proof {
            reveal_strlit("\\Gamma");
        }
        ("\\Gamma", "Γ")
    } else if k == 24 {
        proof {
            reveal_strlit("\\Delta");
        }
        ("\\Delta", "Δ")
    } else if k == 25 {
        proof {
            reveal_strlit("\\Theta");
        }
        ("\\Theta", "Θ")
    } else if k == 26 {
        proof {
            reveal_strlit("\\Lambda");
        }
        ("\\Lambda", "Λ")
    } else if k == 27 {
        proof {
            reveal_strlit("\\Xi");
        }
        ("\\Xi", "Ξ")
    } else if k == 28 {
        proof {
            reveal_strlit("\\Pi");
        }
        ("\\Pi", "Π")
    } else if k == 29 {
        proof {
            reveal_strlit("\\Sigma");
        }
        ("\\Sigma", "Σ")
    } else if k == 30 {
        proof {
            reveal_strlit("\\Phi");
        }
        ("\\Phi", "Φ")
    } else if k == 31 {
        proof {
            reveal_strlit("\\Psi");
        }
        ("\\Psi", "Ψ")
    } else if k == 32 {
        proof {
            reveal_strlit("\\Omega");
        }
        ("\\Omega", "Ω")
    } else if k == 33 {
        proof {
            reveal_strlit("\\sum");
        }
        ("\\sum", "Σ")
    } else if k == 34 {
        proof {
            reveal_strlit("\\prod");
        }
        ("\\prod", "∏")
    } else if k == 35 {
        proof {
            reveal_strlit("\\int");
        }
        ("\\int", "∫")
    } else if k == 36 {
        proof {
            reveal_strlit("\\partial");
        }
        ("\\partial", "∂")
    } else if k == 37 {
        proof {
            reveal_strlit("\\nabla");
        }
        ("\\nabla", "∇")
    } else if k == 38 {
        proof {
            reveal_strlit("\\infty");
        }
        ("\\infty", "∞")
    } else if k == 39 {
        proof {
            reveal_strlit("\\sqrt");
        }
        ("\\sqrt", "√")
    } else if k == 40 {
        proof {
            reveal_strlit("\\pm");
        }
        ("\\pm", "±")
    } else if k == 41 {
        proof {
            reveal_strlit("\\times");
        }
        ("\\times", "×")
    } else if k == 42 {
        proof {
            reveal_strlit("\\div");
        }
        ("\\div", "÷")
    } else if k == 43 {
        proof {
            reveal_strlit("\\cdots");
        }
        ("\\cdots", "⋯")
    } else if k == 44 {
        proof {
            reveal_strlit("\\leq");
        }
        ("\\leq", "≤")
    } else if k == 45 {
        proof {
            reveal_strlit("\\geq");
        }
        ("\\geq", "≥")
    } else if k == 46 {
        proof {
            reveal_strlit("\\neq");
        }
        ("\\neq", "≠")
    } else if k == 47 {
        proof {
            reveal_strlit("\\approx");
        }
        ("\\approx", "≈")
    } else if k == 48 {
        proof {
            reveal_strlit("\\equiv");
        }
        ("\\equiv", "≡")
    } else if k == 49 {
        proof {
            reveal_strlit("\\in");
        }
        ("\\in", "∈")
    } else if k == 50 {
        proof {
            reveal_strlit("\\notin");
        }
        ("\\notin", "∉")
    } else if k == 51 {
        proof {
            reveal_strlit("\\subseteq");
        }
        ("\\subseteq", "⊆")
    } else if k == 52 {
        proof {
            reveal_strlit("\\supseteq");
        }
        ("\\supseteq", "⊇")
    } else if k == 53 {
        proof {
            reveal_strlit("\\subset");
        }
        ("\\subset", "⊂")
    } else if k == 54 {
        proof {
            reveal_strlit("\\supset");
        }
        ("\\supset", "⊃")
    } else if k == 55 {
        proof {
            reveal_strlit("\\cup");
        }
        ("\\cup", "∪")
    } else if k == 56 {
        proof {
            reveal_strlit("\\cap");
        }
        ("\\cap", "∩")
    } else if k == 57 {
        proof {
            reveal_strlit("\\forall");
        }
        ("\\forall", "∀")
    } else if k == 58 {
        proof {
            reveal_strlit("\\exists");
        }
        ("\\exists", "∃")
    } else if k == 59 {
        proof {
            reveal_strlit("\\neg");
        }
        ("\\neg", "¬")
    } else if k == 60 {
        proof {
            reveal_strlit("\\wedge");
        }
        ("\\wedge", "∧")
    } else if k == 61 {
        proof {
            reveal_strlit("\\vee");
        }
        ("\\vee", "∨")
    } else if k == 62 {
        proof {
            reveal_strlit("\\rightarrow");
        }
        ("\\rightarrow", "→")
    } else if k == 63 {
        proof {
            reveal_strlit("\\leftarrow");
        }
        ("\\leftarrow", "←")
    } else if k == 64 {
        proof {
            reveal_strlit("\\Rightarrow");
        }
        ("\\Rightarrow", "⇒")
    } else if k == 65 {
        proof {
            reveal_strlit("\\Leftarrow");
        }
        ("\\Leftarrow", "⇐")
    } else if k == 66 {
        proof {
            reveal_strlit("\\leftrightarrow");
        }
        ("\\leftrightarrow", "↔")
    } else if k == 67 {
        proof {
            reveal_strlit("\\Leftrightarrow");
        }
        ("\\Leftrightarrow", "⇔")
    } else if k == 68 {
        proof {
            reveal_strlit("\\to");
        }
        ("\\to", "→")
    } else if k == 69 {
        proof {
            reveal_strlit("\\mapsto");
        }
        ("\\mapsto", "↦")
    } else if k == 70 {
        proof {
            reveal_strlit("\\ldots");
        }
        ("\\ldots", "…")
    } else if k == 71 {
        proof {
            reveal_strlit("\\cdot");
        }
        ("\\cdot", "·")
    } else if k == 72 {
        proof {
            reveal_strlit("\\vdots");
        }
        ("\\vdots", "⋮")
    } else if k == 73 {
        proof {
            reveal_strlit("\\ddots");
        }
        ("\\ddots", "⋱")
    } else if k == 74 {
        proof {
            reveal_strlit("^0");
        }
        ("^0", "⁰")
    } else if k == 75 {
        proof {
            reveal_strlit("^1");
        }
        ("^1", "¹")
    } else if k == 76 {
        proof {
            reveal_strlit("^2");
        }
        ("^2", "²")
    } else if k == 77 {
        proof {
            reveal_strlit("^3");
        }
        ("^3", "³")
    } else if k == 78 {
        proof {
            reveal_strlit("^4");
        }
        ("^4", "⁴")
    } else if k == 79 {
        proof {
            reveal_strlit("^5");
        }
        ("^5", "⁵")
    } else if k == 80 {
        proof {
            reveal_strlit("^6");
        }
        ("^6", "⁶")
    } else if k == 81 {
        proof {
            reveal_strlit("^7");
        }
        ("^7", "⁷")
    } else if k == 82 {
        proof {
            reveal_strlit("^8");
        }
        ("^8", "⁸")
    } else if k == 83 {
        proof {
            reveal_strlit("^9");
        }
        ("^9", "⁹")
    } else if k == 84 {
        proof {
            reveal_strlit("^n");
        }
        ("^n", "ⁿ")
    } else if k == 85 {
        proof {
            reveal_strlit("^i");
        }
        ("^i", "ⁱ")
    } else if k == 86 {
        proof {
            reveal_strlit("_0");
        }
        ("_0", "₀")
    } else if k == 87 {
        proof {
            reveal_strlit("_1");
        }
        ("_1", "₁")
    } else if k == 88 {
        proof {
            reveal_strlit("_2");
        }
        ("_2", "₂")
    } else if k == 89 {
        proof {
            reveal_strlit("_3");
        }
        ("_3", "₃")
    } else if k == 90 {
        proof {
            reveal_strlit("_4");
        }
        ("_4", "₄")
    } else if k == 91 {
        proof {
            reveal_strlit("_5");
        }
        ("_5", "₅")
    } else if k == 92 {
        proof {
            reveal_strlit("_6");
        }
        ("_6", "₆")
    } else if k == 93 {
        proof {
            reveal_strlit("_7");
        }
        ("_7", "₇")
    } else if k == 94 {
        proof {
            reveal_strlit("_8");
        }
        ("_8", "₈")
    } else {
        proof {
            reveal_strlit("_9");
        }
        ("_9", "₉")
    }
}

/// The layout-only command `k` (dropped, its argument kept).
pub open spec fn latex_wrapper(k: int) -> Seq<char> {
    if k == 0 {
        "\\text"@
    } else if k == 1 {
        "\\mathrm"@
    } else if k == 2 {
        "\\mathbf"@
    } else if k == 3 {
        "\\mathit"@
    } else if k == 4 {
        "\\left"@
    } else {
        "\\right"@
    }
}

fn wrapper(k: usize) -> (r: &'static str)
    requires
        k < WRAPPER_COUNT,
    ensures
        r@ == latex_wrapper(k as int),
        r@.len() > 0,
{
    if k == 0 {
        proof {
            reveal_strlit("\\text");
        }
        "\\text"
    } else if k == 1 {
        proof {
            reveal_strlit("\\mathrm");
        }
        "\\mathrm"
    } else if k == 2 {
        proof {
            reveal_strlit("\\mathbf");
        }
        "\\mathbf"
    } else if k == 3 {
        proof {
            reveal_strlit("\\mathit");
        }
        "\\mathit"
    } else if k == 4 {
        proof {
            reveal_strlit("\\left");
        }
        "\\left"
    } else {
        proof {
            reveal_strlit("\\right");
        }
        "\\right"
    }
}

/// The first `n` table substitutions applied in order.
pub open spec fn substituted(s: Seq<char>, n: nat) -> Seq<char>
    decreases n,
{
    if n == 0 {
        s
    } else {
        let e = latex_substitution(n - 1);
        replace_all(substituted(s, (n - 1) as nat), e.0, e.1)
    }
}

/// The first `n` layout-only commands removed in order.
pub open spec fn unwrapped(s: Seq<char>, n: nat) -> Seq<char>
    decreases n,
{
    if n == 0 {
        s
    } else {
        replace_all(unwrapped(s, (n - 1) as nat), latex_wrapper(n - 1), seq![])
    }
}

/// Index of the `}` closing a group, scanning from `i` at nesting `depth`.
pub open spec fn close_brace(s: Seq<char>, i: int, depth: nat) -> Option<int>
    decreases s.len() - i,
{
    if i < 0 || i >= s.len() {
        None
    } else if s[i] == '{' {
        close_brace(s, i + 1, depth + 1)
    } else if s[i] == '}' {
        if depth <= 1 {
            Some(i)
        } else {
            close_brace(s, i + 1, (depth - 1) as nat)
        }
    } else {
        close_brace(s, i + 1, depth)
    }
}

/// Index of the `}` closing a leading `{` group of `s`.
pub open spec fn brace_end(s: Seq<char>) -> Option<int> {
    if s.len() > 0 && s[0] == '{' {
        close_brace(s, 1, 1)
    } else {
        None
    }
}

/// What `take_braced` returns: the inside of a leading `{...}` group (nesting
/// honoured) and the text after it.
pub open spec fn spec_take_braced(s: Seq<char>) -> Option<(Seq<char>, Seq<char>)> {
    match brace_end(s) {
        Some(e) => Some((s.subrange(1, e), s.skip(e + 1))),
        None => None,
    }
}

/// Whether an operand reads unambiguously without parentheses: one
/// character, or a non-empty run of ASCII digits and dots.
pub open spec fn unambiguous(s: Seq<char>) -> bool {
    s.len() == 1 || (s.len() > 0 && forall|j: int| 0 <= j < s.len() ==> is_ascii_digit(
        #[trigger] s[j],
    ) || s[j] == '.')
}

/// What `wrap_operand` returns.
pub open spec fn spec_wrap_operand(s: Seq<char>) -> Seq<char> {
    if unambiguous(s) {
        s
    } else {
        seq!['('] + s + seq![')']
    }
}

/// The `\frac` command.
pub open spec fn frac_cmd() -> Seq<char> {
    seq!['\\', 'f', 'r', 'a', 'c']
}

/// What `expand_fractions` returns: each `\frac{a}{b}` becomes `a/b` with
/// both operands expanded and parenthesised unless unambiguous; a `\frac` not
/// followed by two groups is kept as it is.
#[verifier::opaque]
pub open spec fn expand(s: Seq<char>) -> Seq<char>
    decreases s.len(),
{
    match find(s, frac_cmd()) {
        None => s,
        Some(at) => if 0 <= at && at + 5 <= s.len() {
            let after = s.skip(at + 5);
            let kept = s.take(at) + frac_cmd() + expand(after);
            match brace_end(after) {
                Some(e1) => if 1 <= e1 < after.len() {
                    let num = after.subrange(1, e1);
                    let r1 = after.skip(e1 + 1);
                    match brace_end(r1) {
                        Some(e2) => if 1 <= e2 < r1.len() {
                            let den = r1.subrange(1, e2);
                            let tail = r1.skip(e2 + 1);
                            s.take(at) + spec_wrap_operand(expand(num)) + seq!['/']
                                + spec_wrap_operand(expand(den)) + expand(tail)
                        } else {
                            kept
                        },
                        None => kept,
                    }
                } else {
                    kept
                },
                None => kept,
            }
        } else {
            s
        },
    }
}

/// What `substitute_latex` returns: the table substitutions, then fraction
/// expansion, then the layout-only commands dropped.
pub open spec fn spec_substitute_latex(s: Seq<char>) -> Seq<char> {
    unwrapped(expand(substituted(s, SUBSTITUTION_COUNT as nat)), WRAPPER_COUNT as nat)
}

proof fn lemma_close_brace_bounds(s: Seq<char>, i: int, depth: nat)
    ensures
        match close_brace(s, i, depth) {
            Some(e) => i <= e < s.len(),
            None => true,
        },
    decreases s.len() - i,
{
    if 0 <= i < s.len() {
        if s[i] == '{' {
            lemma_close_brace_bounds(s, i + 1, depth + 1);
        } else if s[i] == '}' {
            if depth > 1 {
                lemma_close_brace_bounds(s, i + 1, (depth - 1) as nat);
            }
        } else {
            lemma_close_brace_bounds(s, i + 1, depth);
        }
    }
}

/// The `}` closing a group opened at `s[lo]`, as an index of `s`.
fn brace_end_in(s: &[char], lo: usize) -> (r: Option<usize>)
    requires
        lo <= s@.len(),
    ensures
        match r {
            Some(e) => lo < e < s@.len() && brace_end(s@.skip(lo as int)) == Some(e - lo),
            None => brace_end(s@.skip(lo as int)) is None,
        },
{
    let ghost t = s@.skip(lo as int);
    let n = s.len();
    if lo >= n || s[lo] != '{' {
        return None;
    }
    let mut depth: usize = 1;
    let mut i = lo + 1;
    while i < n
        invariant
            lo < i <= n == s@.len(),
            t == s@.skip(lo as int),
            t.len() > 0 && t[0] == '{',
            1 <= depth <= i - lo,
            close_brace(t, 1, 1) == close_brace(t, i - lo, depth as nat),
        decreases n - i,
    {
        let c = s[i];
        assert(t[i - lo] == c);
        assert(t.len() > 0 && t[0] == '{');
        if c == '{' {
            depth = depth + 1;
        } else if c == '}' {
            if depth == 1 {
                assert(close_brace(t, i - lo, depth as nat) == Some(i - lo));
                return Some(i);
            }
            depth = depth - 1;
        }
        i = i + 1;
    }
    None
}

/// Split a leading `{...}` group off `s`, honouring nesting: its inside and
/// the text after it.
pub fn take_braced(s: &str) -> (r: Option<(String, String)>)
    ensures
        match r {
            Some((a, b)) => spec_take_braced(s@) == Some((a@, b@)),
            None => spec_take_braced(s@) is None,
        },
{
    let cs = to_chars(s);
    let n = cs.len();
    assert(cs@.skip(0) =~= cs@);
    match brace_end_in(&cs, 0) {
        Some(e) => {
            let inner = slice_of(&cs, 1, e);
            let rest = slice_of(&cs, e + 1, n);
            assert(rest@ =~= cs@.skip(e + 1));
            Some((from_chars(&inner), from_chars(&rest)))
        },
        None => None,
    }
}

fn wrap_chars(s: &[char]) -> (r: Vec<char>)
    ensures
        r@ == spec_wrap_operand(s@),
{
    let mut plain = s.len() == 1;
    if !plain && s.len() > 0 {
        let mut i: usize = 0;
        let mut all = true;
        while i < s.len()
            invariant
                i <= s@.len(),
                all == forall|j: int| 0 <= j < i ==> is_ascii_digit(#[trigger] s@[j]) || s@[j] == '.',
            decreases s.len() - i,
        {
            let c = s[i];
            if !(('0' <= c && c <= '9') || c == '.') {
                all = false;
            }
            i = i + 1;
        }
        plain = all;
    }
    let mut out: Vec<char> = Vec::new();
    if plain {
        extend_all(&mut out, s);
    } else {
        out.push('(');
        extend_all(&mut out, s);
        out.push(')');
    }
    out
}

/// Parenthesise an operand unless it is unambiguous on its own: a single
/// character, or a bare number.
pub fn wrap_operand(s: &str) -> (r: String)
    ensures
        r@ == spec_wrap_operand(s@),
{
    let cs = to_chars(s);
    let w = wrap_chars(&cs);
    from_chars(&w)
}

fn frac_chars() -> (r: Vec<char>)
    ensures
        r@ == frac_cmd(),
{
    let mut r: Vec<char> = Vec::new();
    r.push('\\');
    r.push('f');
    r.push('r');
    r.push('a');
    r.push('c');
    assert(r@ =~= frac_cmd());
    r
}

proof fn lemma_expand_frac(t: Seq<char>, at: int, e1: int, e2: int)
    requires
        find(t, frac_cmd()) == Some(at),
        0 <= at,
        at + 5 <= t.len(),
        brace_end(t.skip(at + 5)) == Some(e1),
        1 <= e1 < t.skip(at + 5).len(),
        brace_end(t.skip(at + 5).skip(e1 + 1)) == Some(e2),
        1 <= e2 < t.skip(at + 5).skip(e1 + 1).len(),
    ensures
        expand(t) == t.take(at) + spec_wrap_operand(expand(t.skip(at + 5).subrange(1, e1)))
            + seq!['/'] + spec_wrap_operand(expand(t.skip(at + 5).skip(e1 + 1).subrange(1, e2)))
            + expand(t.skip(at + 5).skip(e1 + 1).skip(e2 + 1)),
{
    reveal(expand);
}

proof fn lemma_expand_kept(t: Seq<char>, at: int)
    requires
        find(t, frac_cmd()) == Some(at),
        0 <= at,
        at + 5 <= t.len(),
        match brace_end(t.skip(at + 5)) {
            None => true,
            Some(e1) => 1 <= e1 < t.skip(at + 5).len() && brace_end(t.skip(at + 5).skip(e1 + 1))
                is None,
        },
    ensures
        expand(t) == t.take(at) + frac_cmd() + expand(t.skip(at + 5)),
{
    reveal(expand);
}

proof fn lemma_expand_none(t: Seq<char>)
    requires
        find(t, frac_cmd()) is None,
    ensures
        expand(t) == t,
{
    reveal(expand);
}

fn expand_chars(s: &[char]) -> (r: Vec<char>)
    ensures
        r@ == expand(s@),
    decreases s@.len(),
{
    let frac = frac_chars();
    let n = s.len();
    let mut out: Vec<char> = Vec::new();
    let mut pos: usize = 0;
    assert(s@.skip(0) =~= s@);
    loop
        invariant
            pos <= n == s@.len(),
            frac@ == frac_cmd(),
            out@ + expand(s@.skip(pos as int)) == expand(s@),
        decreases n - pos,
    {
        let ghost rest = s@.skip(pos as int);
        let ghost out0 = out@;
        proof {
            lemma_find_suffix(s@, frac_cmd(), pos as int);
        }
        match find_seq_from(s, &frac, pos) {
            None => {
                assert(s@.subrange(pos as int, n as int) =~= rest);
                proof {
                    lemma_expand_none(rest);
                }
                extend_range(&mut out, s, pos, n);
                return out;
            },
            Some(at) => {
                let a = at + 5;
                let ghost k = at - pos;
                let ghost after = s@.skip(a as int);
                proof {
                    assert(rest.take(k) =~= s@.subrange(pos as int, at as int));
                    assert(rest.skip(k + 5) =~= after);
                }
                extend_range(&mut out, s, pos, at);
                let mut done = false;
                match brace_end_in(s, a) {
                    Some(e1) => {
                        let ghost r1 = after.skip(e1 - a + 1);
                        assert(r1 =~= s@.skip(e1 + 1));
                        match brace_end_in(s, e1 + 1) {
                            Some(e2) => {
                                let num = slice_of(s, a + 1, e1);
                                let den = slice_of(s, e1 + 2, e2);
                                proof {
                                    assert(num@ =~= after.subrange(1, e1 - a));
                                    assert(den@ =~= r1.subrange(1, e2 - e1 - 1));
                                    assert(r1.skip(e2 - e1 - 1 + 1) =~= s@.skip(e2 + 1));
                                    lemma_expand_frac(rest, k, e1 - a, e2 - e1 - 1);
                                }
                                let xn = expand_chars(&num);
                                let wn = wrap_chars(&xn);
                                let xd = expand_chars(&den);
                                let wd = wrap_chars(&xd);
                                extend_all(&mut out, &wn);
                                out.push('/');
                                extend_all(&mut out, &wd);
                                pos = e2 + 1;
                                done = true;
                                proof {
                                    let tail = s@.skip(pos as int);
                                    assert(out0 + (rest.take(k) + wn@ + seq!['/'] + wd@ + expand(tail))
                                        =~= out@ + expand(tail));
                                }
                            },
                            None => {
                                proof {
                                    lemma_expand_kept(rest, k);
                                }
                            },
                        }
                    },
                    None => {
                        proof {
                            lemma_expand_kept(rest, k);
                        }
                    },
                }
                if !done {
                    extend_all(&mut out, &frac);
                    pos = a;
                    proof {
                        assert(out0 + (rest.take(k) + frac_cmd() + expand(after)) =~= out@ + expand(
                            after,
                        ));
                    }
                }
            },
        }
    }
}

/// Rewrite `\frac{a}{b}` as `a/b`, parenthesising compound operands; a
/// `\frac` without two groups is left alone.
pub fn expand_fractions(input: &str) -> (r: String)
    ensures
        r@ == expand(input@),
{
    let cs = to_chars(input);
    let out = expand_chars(&cs);
    from_chars(&out)
}

/// Apply the Unicode substitutions to a LaTeX string: Greek letters and
/// operators, superscript and subscript digits, fractions, and layout-only
/// commands dropped.
pub fn substitute_latex(input: &str) -> (r: String)
    ensures
        r@ == spec_substitute_latex(input@),
{
    let mut cur = to_chars(input);
    let mut k: usize = 0;
    while k < SUBSTITUTION_COUNT
        invariant
            k <= SUBSTITUTION_COUNT,
            cur@ == substituted(input@, k as nat),
        decreases SUBSTITUTION_COUNT - k,
    {
        let (p, q) = substitution(k);
        let pv = to_chars(p);
        let qv = to_chars(q);
        cur = replace_all_vec(&cur, &pv, &qv);
        k = k + 1;
    }
    let mut cur = expand_chars(&cur);
    let empty: Vec<char> = Vec::new();
    let mut w: usize = 0;
    while w < WRAPPER_COUNT
        invariant
            w <= WRAPPER_COUNT,
            empty@ == Seq::<char>::empty(),
            cur@ == unwrapped(expand(substituted(input@, SUBSTITUTION_COUNT as nat)), w as nat),
        decreases WRAPPER_COUNT - w,
    {
        let p = wrapper(w);
        let pv = to_chars(p);
        cur = replace_all_vec(&cur, &pv, &empty);
        w = w + 1;
    }
    from_chars(&cur)
}

} // verus!
