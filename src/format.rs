//! Turning a parsed template and a context into styled pieces of text.
use vstd::prelude::*;
use crate::theme::{Color, Styles, Node, Theme};
use crate::prompt::Context;

verus! {

/// How a piece of text looks.
#[derive(PartialEq, Eq, Structural, Debug, Clone, Copy)]
pub struct Look {
    pub color: Color,
    pub background: Option<Color>,
    pub style: Styles,
}

/// A piece of text and its look.
pub struct StyledText {
    pub text: String,
    pub look: Look,
}

/// A variable of the template is not set in the context.
pub struct FormatError {
    pub var_name: String,
}

impl FormatError {
    /// What went wrong, in words.
    pub fn message(&self) -> (r: String)
        ensures
            r@ == "Format error: variable "@ + self.var_name@ + " not found"@,
    {
        let mut s = String::from_str("Format error: variable ");
        s.append(self.var_name.as_str());
        s.append(" not found");
        s
    }
}

/// The look at the start: white text, no background, no style.
pub open spec fn initial_look() -> Look {
    Look { color: Color { red: 255, green: 255, blue: 255 }, background: None, style: Styles::Clear }
}

/// The look after the fragments `nodes`.
pub open spec fn look_after(nodes: Seq<Node>) -> Look
    decreases nodes.len(),
{
    if nodes.len() == 0 {
        initial_look()
    } else {
        let l = look_after(nodes.drop_last());
        match nodes.last() {
            Node::Color(c) => Look { color: c.color, ..l },
            Node::BackgroundColor(b) => Look { background: b.background_color, ..l },
            Node::Style(s) => Look { style: s.style, ..l },
            _ => l,
        }
    }
}

/// The pieces of text the fragments `nodes` produce with the variables of
/// `ctx`, or `None` where a variable is not set.
pub open spec fn rendered(nodes: Seq<Node>, ctx: Context) -> Option<Seq<(Seq<char>, Look)>>
    decreases nodes.len(),
{
    if nodes.len() == 0 {
        Some(seq![])
    } else {
        match rendered(nodes.drop_last(), ctx) {
            None => None,
            Some(prev) => {
                let l = look_after(nodes.drop_last());
                match nodes.last() {
                    Node::Var(v) => match ctx.lookup(v.var_name@) {
                        Some(x) => Some(prev.push((x, l))),
                        None => None,
                    },
                    Node::Literal(li) => Some(prev.push((li.literal@, l))),
                    _ => Some(prev),
                }
            },
        }
    }
}

proof fn lemma_missing_stays(nodes: Seq<Node>, ctx: Context, i: int)
    requires
        0 <= i <= nodes.len(),
        rendered(nodes.take(i), ctx) is None,
    ensures
        rendered(nodes, ctx) is None,
    decreases nodes.len() - i,
{
    if i < nodes.len() {
        assert(nodes.take(i + 1).drop_last() =~= nodes.take(i));
        lemma_missing_stays(nodes, ctx, i + 1);
    } else {
        assert(nodes.take(i) =~= nodes);
    }
}

pub open spec fn piece_views(v: Seq<StyledText>) -> Seq<(Seq<char>, Look)> {
    v.map_values(|p: StyledText| (p.text@, p.look))
}

/// The styled pieces of a template: each variable and literal with the
/// color, background and style set before it.
pub fn styled_pieces(theme: &Theme, context: &Context) -> (r: Result<Vec<StyledText>, FormatError>)
    ensures
        r is Ok <==> rendered(theme.0@, *context) is Some,
        r matches Ok(v) ==> piece_views(v@) == rendered(theme.0@, *context)->0,
        r matches Err(e) ==> exists|i: int|
            0 <= i < theme.0@.len() && rendered(theme.0@.take(i), *context) is Some && ((#[trigger] theme.0@[i]) matches Node::Var(v)
                && v.var_name@ == e.var_name@) && context.lookup(e.var_name@) is None,
{
    let nodes = theme.get_vec();
    let ghost ns = nodes@;
    let mut look = Look { color: Color::new(255, 255, 255), background: None, style: Styles::Clear };
    let mut out: Vec<StyledText> = Vec::new();
    let mut i: usize = 0;
    assert(ns.take(0) =~= Seq::<Node>::empty());
    while i < nodes.len()
        invariant
            ns == nodes@,
            ns == theme.0@,
            i <= ns.len(),
            look == look_after(ns.take(i as int)),
            rendered(ns.take(i as int), *context) == Some(piece_views(out@)),
        decreases ns.len() - i,
    {
        let ghost pre = ns.take(i as int);
        assert(ns.take(i + 1).drop_last() =~= pre);
        assert(ns.take(i + 1).last() == ns[i as int]);
        match &nodes[i] {
            Node::Var(v) => {
                match context.value_of(v.var_name.as_str()) {
                    Some(x) => {
                        let ghost before = out@;
                        out.push(StyledText { text: x.clone(), look });
                        assert(piece_views(out@) =~= piece_views(before).push((x@, look)));
                    },
                    None => {
                        assert(rendered(pre, *context) is Some);
                        assert(rendered(ns.take(i + 1), *context) is None);
                        proof {
                            lemma_missing_stays(ns, *context, i + 1);
                        }
                        return Err(FormatError { var_name: v.var_name.clone() });
                    },
                }
            },
            Node::Literal(l) => {
                let ghost before = out@;
                out.push(StyledText { text: l.literal.clone(), look });
                assert(piece_views(out@) =~= piece_views(before).push((l.literal@, look)));
            },
            Node::Color(c) => {
                look = Look { color: c.color, ..look };
            },
            Node::BackgroundColor(b) => {
                look = Look { background: b.background_color, ..look };
            },
            Node::Style(s) => {
                look = Look { style: s.style, ..look };
            },
        }
        i = i + 1;
    }
    assert(ns.take(ns.len() as int) =~= ns);
    Ok(out)
}

} // verus!
