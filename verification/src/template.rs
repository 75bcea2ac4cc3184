//! The narration template engine: a template is a plain string holding
//! `{identifier}` and `{identifier:?}` placeholders; a placeholder resolves
//! to a step-local argument first, then to a story-level constant, and
//! renders display-style, or debug-style when `:?` is given.

use vstd::prelude::*;

use crate::catalog::StepArgV;
use crate::catalog::StoryConstV;
use crate::catalog::resolve_value;
use crate::value::ValueV;
use crate::value::debug_text;
use crate::value::display_text;

verus! {

/// Characters a placeholder identifier may consist of.
pub open spec fn is_ident_char(c: char) -> bool {
    ('a' <= c && c <= 'z') || ('A' <= c && c <= 'Z') || ('0' <= c && c <= '9') || c == '_'
}

/// The length of the identifier run at the front of the text.
pub open spec fn ident_len(t: Seq<char>) -> nat
    decreases t.len(),
{
    if t.len() > 0 && is_ident_char(t[0]) {
        1 + ident_len(t.drop_first())
    } else {
        0
    }
}

/// Whether the text at a `{` starts a display-style placeholder
/// `{identifier}`; `k` is the identifier length.
pub open spec fn display_shape(t: Seq<char>, k: int) -> bool {
    k >= 1 && 1 + k < t.len() && t[1 + k] == '}'
}

/// Whether the text at a `{` starts a debug-style placeholder
/// `{identifier:?}`; `k` is the identifier length.
pub open spec fn debug_shape(t: Seq<char>, k: int) -> bool {
    k >= 1 && 3 + k < t.len() && t[1 + k] == ':' && t[2 + k] == '?' && t[3 + k] == '}'
}

/// The rendered form of one resolved placeholder; an unresolved one
/// renders as nothing, a case well-formed templates rule out.
pub open spec fn placeholder_text(r: Option<ValueV>, debug: bool) -> Seq<char> {
    match r {
        Option::Some(v) => if debug {
            debug_text(v)
        } else {
            display_text(v)
        },
        Option::None => Seq::empty(),
    }
}

/// The narration text a template renders to: placeholders substituted,
/// all other characters verbatim.
pub open spec fn render_text(
    t: Seq<char>,
    args: Seq<StepArgV>,
    consts: Seq<StoryConstV>,
) -> Seq<char>
    decreases t.len(),
{
    if t.len() == 0 {
        Seq::empty()
    } else if t[0] == '{' {
        let k = ident_len(t.drop_first()) as int;
        let name = t.subrange(1, 1 + k);
        if display_shape(t, k) {
            placeholder_text(resolve_value(args, consts, name), false) + render_text(
                t.skip(2 + k),
                args,
                consts,
            )
        } else if debug_shape(t, k) {
            placeholder_text(resolve_value(args, consts, name), true) + render_text(
                t.skip(4 + k),
                args,
                consts,
            )
        } else {
            seq!['{'] + render_text(t.drop_first(), args, consts)
        }
    } else {
        seq![t[0]] + render_text(t.drop_first(), args, consts)
    }
}

/// A template is well-formed when every `{` opens a placeholder of one of
/// the two shapes whose identifier resolves, and no bare `}` occurs.
pub open spec fn text_wf(t: Seq<char>, args: Seq<StepArgV>, consts: Seq<StoryConstV>) -> bool
    decreases t.len(),
{
    if t.len() == 0 {
        true
    } else if t[0] == '{' {
        let k = ident_len(t.drop_first()) as int;
        let name = t.subrange(1, 1 + k);
        if display_shape(t, k) {
            resolve_value(args, consts, name) is Some && text_wf(t.skip(2 + k), args, consts)
        } else if debug_shape(t, k) {
            resolve_value(args, consts, name) is Some && text_wf(t.skip(4 + k), args, consts)
        } else {
            false
        }
    } else if t[0] == '}' {
        false
    } else {
        text_wf(t.drop_first(), args, consts)
    }
}

/// Whether two character vectors hold the same characters.
pub fn chars_eq(a: &Vec<char>, b: &Vec<char>) -> (r: bool)
    ensures
        r == (a@ == b@),
{
    if a.len() != b.len() {
        assert(a@ != b@);
        return false;
    }
    let mut i: usize = 0;
    while i < a.len()
        invariant
            i <= a@.len(),
            a@.len() == b@.len(),
            forall|j: int| 0 <= j < i ==> a@[j] == b@[j],
        decreases a@.len() - i,
    {
        if a[i] != b[i] {
            return false;
        }
        i = i + 1;
    }
    assert(a@ =~= b@);
    true
}

fn is_ident_char_exec(c: char) -> (b: bool)
    ensures
        b == is_ident_char(c),
{
    ('a' <= c && c <= 'z') || ('A' <= c && c <= 'Z') || ('0' <= c && c <= '9') || c == '_'
}

/// Scans the identifier run that starts at position `p`, returning the
/// position just past it.
fn scan_ident(t: &Vec<char>, p: usize) -> (j: usize)
    requires
        p <= t@.len(),
    ensures
        p <= j <= t@.len(),
        ident_len(t@.skip(p as int)) == j - p,
{
    let mut j = p;
    while j < t.len() && is_ident_char_exec(t[j])
        invariant
            p <= j <= t@.len(),
            ident_len(t@.skip(p as int)) == (j - p) + ident_len(t@.skip(j as int)),
        decreases t@.len() - j,
    {
        proof {
            assert(t@.skip(j as int)[0] == t@[j as int]);
            assert(t@.skip(j as int).drop_first() =~= t@.skip(j as int + 1));
        }
        j = j + 1;
    }
    proof {
        if j < t.len() {
            assert(t@.skip(j as int)[0] == t@[j as int]);
            assert(ident_len(t@.skip(j as int)) == 0);
        } else {
            assert(t@.skip(j as int).len() == 0);
            assert(ident_len(t@.skip(j as int)) == 0);
        }
    }
    j
}

/// Copies the characters of `t` in positions `from..to`.
fn copy_range(t: &Vec<char>, from: usize, to: usize) -> (r: Vec<char>)
    requires
        from <= to <= t@.len(),
    ensures
        r@ == t@.subrange(from as int, to as int),
{
    let mut r: Vec<char> = Vec::new();
    let mut p = from;
    while p < to
        invariant
            from <= p <= to <= t@.len(),
            r@ == t@.subrange(from as int, p as int),
        decreases to - p,
    {
        r.push(t[p]);
        assert(t@.subrange(from as int, p as int).push(t@[p as int]) =~= t@.subrange(
            from as int,
            p as int + 1,
        ));
        p = p + 1;
    }
    r
}

/// Renders a well-formed template over the given arguments and constants.
pub(crate) fn render_chars(
    t: &Vec<char>,
    args: &Vec<crate::catalog::StepArg>,
    consts: &Vec<crate::catalog::StoryConst>,
) -> (r: Vec<char>)
    requires
        text_wf(t@, crate::catalog::args_view(args@), crate::catalog::consts_view(consts@)),
    ensures
        r@ == render_text(t@, crate::catalog::args_view(args@), crate::catalog::consts_view(consts@)),
{
    let ghost av = crate::catalog::args_view(args@);
    let ghost cv = crate::catalog::consts_view(consts@);
    let mut out: Vec<char> = Vec::new();
    let mut i: usize = 0;
    proof {
        assert(t@.skip(0) =~= t@);
        assert(out@ + render_text(t@, av, cv) =~= render_text(t@, av, cv));
    }
    while i < t.len()
        invariant
            i <= t@.len(),
            av == crate::catalog::args_view(args@),
            cv == crate::catalog::consts_view(consts@),
            text_wf(t@.skip(i as int), av, cv),
            render_text(t@, av, cv) == out@ + render_text(t@.skip(i as int), av, cv),
        decreases t@.len() - i,
    {
        let ghost rest = t@.skip(i as int);
        proof {
            assert(rest[0] == t@[i as int]);
        }
        let c = t[i];
        if c == '{' {
            let j = scan_ident(t, i + 1);
            let ghost k = j - i - 1;
            proof {
                assert(rest.drop_first() =~= t@.skip(i as int + 1));
                assert(ident_len(rest.drop_first()) == k);
            }
            let name = copy_range(t, i + 1, j);
            proof {
                assert(name@ =~= rest.subrange(1, 1 + k));
                if k == 0 {
                    assert(!display_shape(rest, k));
                    assert(!debug_shape(rest, k));
                    assert(false);
                }
            }
            let resolved = crate::catalog::resolve_exec(args, consts, &name);
            if j < t.len() && t[j] == '}' {
                proof {
                    assert(rest[1 + k] == t@[j as int]);
                    assert(display_shape(rest, k));
                }
                let v = match resolved {
                    Option::Some(v) => v,
                    Option::None => vstd::pervasive::unreached(),
                };
                let piece = crate::value::render_display(&v);
                let mut piece_chars = crate::value::str_to_chars(piece.as_str());
                proof {
                    assert(render_text(rest, av, cv) == placeholder_text(
                        resolve_value(av, cv, rest.subrange(1, 1 + k)),
                        false,
                    ) + render_text(rest.skip(2 + k), av, cv));
                    assert(piece_chars@ == placeholder_text(
                        resolve_value(av, cv, rest.subrange(1, 1 + k)),
                        false,
                    ));
                    assert(rest.skip(2 + k) =~= t@.skip(j as int + 1));
                    assert(out@ + (piece_chars@ + render_text(t@.skip(j as int + 1), av, cv)) =~= (
                    out@ + piece_chars@) + render_text(t@.skip(j as int + 1), av, cv));
                }
                out.append(&mut piece_chars);
                i = j + 1;
            } else if j < t.len() && t.len() - j > 2 && t[j] == ':' && t[j + 1] == '?' && t[j + 2]
                == '}' {
                proof {
                    assert(rest[1 + k] == t@[j as int]);
                    assert(rest[2 + k] == t@[j as int + 1]);
                    assert(rest[3 + k] == t@[j as int + 2]);
                    assert(debug_shape(rest, k));
                    assert(!display_shape(rest, k));
                }
                let v = match resolved {
                    Option::Some(v) => v,
                    Option::None => vstd::pervasive::unreached(),
                };
                let piece = crate::value::render_debug(&v);
                let mut piece_chars = crate::value::str_to_chars(piece.as_str());
                proof {
                    assert(render_text(rest, av, cv) == placeholder_text(
                        resolve_value(av, cv, rest.subrange(1, 1 + k)),
                        true,
                    ) + render_text(rest.skip(4 + k), av, cv));
                    assert(piece_chars@ == placeholder_text(
                        resolve_value(av, cv, rest.subrange(1, 1 + k)),
                        true,
                    ));
                    assert(rest.skip(4 + k) =~= t@.skip(j as int + 3));
                    assert(out@ + (piece_chars@ + render_text(t@.skip(j as int + 3), av, cv)) =~= (
                    out@ + piece_chars@) + render_text(t@.skip(j as int + 3), av, cv));
                }
                out.append(&mut piece_chars);
                i = j + 3;
            } else {
                proof {
                    if display_shape(rest, k) {
                        assert(t@[j as int] == '}');
                        assert(false);
                    }
                    if debug_shape(rest, k) {
                        assert(t@[j as int] == ':' && t@[j as int + 1] == '?' && t@[j as int + 2]
                            == '}');
                        assert(false);
                    }
                    assert(false);
                }
                vstd::pervasive::unreached::<()>();
            }
        } else {
            out.push(c);
            proof {
                assert(rest.drop_first() =~= t@.skip(i as int + 1));
                assert(render_text(rest, av, cv) == seq![rest[0]] + render_text(
                    t@.skip(i as int + 1),
                    av,
                    cv,
                ));
                assert(out@ + render_text(t@.skip(i as int + 1), av, cv) =~= (out@.drop_last()
                    + seq![rest[0]]) + render_text(t@.skip(i as int + 1), av, cv));
                assert(out@.drop_last() + seq![rest[0]] =~= out@);
            }
            i = i + 1;
        }
    }
    proof {
        assert(t@.skip(t@.len() as int).len() == 0);
        assert(render_text(t@.skip(i as int), av, cv) == Seq::<char>::empty());
        assert(out@ + Seq::<char>::empty() =~= out@);
    }
    out
}

/// Decides whether a template is well-formed over the given arguments and
/// constants.
pub(crate) fn check_chars(
    t: &Vec<char>,
    args: &Vec<crate::catalog::StepArg>,
    consts: &Vec<crate::catalog::StoryConst>,
) -> (b: bool)
    ensures
        b == text_wf(t@, crate::catalog::args_view(args@), crate::catalog::consts_view(consts@)),
{
    let ghost av = crate::catalog::args_view(args@);
    let ghost cv = crate::catalog::consts_view(consts@);
    let mut i: usize = 0;
    proof {
        assert(t@.skip(0) =~= t@);
    }
    while i < t.len()
        invariant
            i <= t@.len(),
            av == crate::catalog::args_view(args@),
            cv == crate::catalog::consts_view(consts@),
            text_wf(t@, av, cv) == text_wf(t@.skip(i as int), av, cv),
        decreases t@.len() - i,
    {
        let ghost rest = t@.skip(i as int);
        proof {
            assert(rest[0] == t@[i as int]);
        }
        let c = t[i];
        if c == '{' {
            let j = scan_ident(t, i + 1);
            let ghost k = j - i - 1;
            proof {
                assert(rest.drop_first() =~= t@.skip(i as int + 1));
                assert(ident_len(rest.drop_first()) == k);
            }
            let name = copy_range(t, i + 1, j);
            proof {
                assert(name@ =~= rest.subrange(1, 1 + k));
            }
            let resolved = crate::catalog::resolve_exec(args, consts, &name);
            if j < t.len() && t[j] == '}' {
                proof {
                    assert(rest[1 + k] == t@[j as int]);
                    if k == 0 {
                        assert(!display_shape(rest, k));
                        assert(!debug_shape(rest, k));
                    } else {
                        assert(display_shape(rest, k));
                    }
                }
                if name.len() == 0 {
                    proof {
                        assert(!text_wf(rest, av, cv));
                    }
                    return false;
                }
                if resolved.is_none() {
                    proof {
                        assert(!text_wf(rest, av, cv));
                    }
                    return false;
                }
                proof {
                    assert(rest.skip(2 + k) =~= t@.skip(j as int + 1));
                }
                i = j + 1;
            } else if j < t.len() && t.len() - j > 2 && t[j] == ':' && t[j + 1] == '?' && t[j + 2]
                == '}' {
                proof {
                    assert(rest[1 + k] == t@[j as int]);
                    assert(rest[2 + k] == t@[j as int + 1]);
                    assert(rest[3 + k] == t@[j as int + 2]);
                    if k == 0 {
                        assert(!display_shape(rest, k));
                        assert(!debug_shape(rest, k));
                    } else {
                        assert(debug_shape(rest, k));
                        assert(!display_shape(rest, k));
                    }
                }
                if name.len() == 0 {
                    proof {
                        assert(!text_wf(rest, av, cv));
                    }
                    return false;
                }
                if resolved.is_none() {
                    proof {
                        assert(!text_wf(rest, av, cv));
                    }
                    return false;
                }
                proof {
                    assert(rest.skip(4 + k) =~= t@.skip(j as int + 3));
                }
                i = j + 3;
            } else {
                proof {
                    if display_shape(rest, k) {
                        assert(t@[j as int] == '}');
                        assert(false);
                    }
                    if debug_shape(rest, k) {
                        assert(t@[j as int] == ':' && t@[j as int + 1] == '?' && t@[j as int + 2]
                            == '}');
                        assert(false);
                    }
                    assert(!text_wf(rest, av, cv));
                }
                return false;
            }
        } else if c == '}' {
            proof {
                assert(!text_wf(rest, av, cv));
            }
            return false;
        } else {
            proof {
                assert(rest.drop_first() =~= t@.skip(i as int + 1));
            }
            i = i + 1;
        }
    }
    proof {
        assert(t@.skip(i as int).len() == 0);
    }
    true
}

} // verus!
