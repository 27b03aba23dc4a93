//! A parsed document as a tree of plain values, and the walk that gathers the
//! text of a subtree.

use crate::text::{
    all_clean, join_words, lemma_join_clean, lemma_join_concat, lemma_join_empty,
    lemma_trimmed_ends, trim, trimmed,
};
use vstd::prelude::*;
use vstd::string::*;

verus! {

/// One node of a parsed document.
pub enum Node {
    /// An element with its tag name, its `class` attribute and its children in
    /// document order.
    Element { tag: String, class: Option<String>, children: Vec<Node> },
    /// A run of text.
    Text(String),
    /// Anything else: a comment, a doctype, a processing instruction.
    Other,
}

/// Which elements a text walk leaves out, together with all that is below them.
pub trait SkipRule {
    /// Whether an element with this tag and this `class` attribute is left out.
    /// An element without the attribute is asked about with an empty `class`.
    spec fn skips(&self, tag: Seq<char>, class: Seq<char>) -> bool;

    fn should_skip(&self, tag: &str, class: &str) -> (skip: bool)
        ensures
            skip == self.skips(tag@, class@),
    ;
}

/// The `class` attribute as text: empty where the attribute is absent.
pub open spec fn class_text(class: Option<String>) -> Seq<char> {
    match class {
        Some(c) => c@,
        None => Seq::empty(),
    }
}

impl Node {
    /// The text fragments below `self` in document order: each text node
    /// trimmed, the empty ones dropped, and nothing from an element that `rule`
    /// skips. `self` itself is not put to `rule`.
    pub open spec fn fragments<R: SkipRule>(self, rule: R) -> Seq<Seq<char>>
        decreases self, 0nat,
    {
        match self {
            Node::Element { tag, class, children } => kept_fragments(
                children@,
                rule,
                children@.len(),
            ),
            Node::Text(t) => if trimmed(t@).len() == 0 {
                Seq::empty()
            } else {
                seq![trimmed(t@)]
            },
            Node::Other => Seq::empty(),
        }
    }

    /// Whether `self` is an element that `rule` skips.
    pub open spec fn skipped_by<R: SkipRule>(self, rule: R) -> bool {
        match self {
            Node::Element { tag, class, children } => rule.skips(tag@, class_text(class)),
            _ => false,
        }
    }

    /// The text of `self`: its fragments joined by single spaces.
    pub open spec fn text<R: SkipRule>(self, rule: R) -> Seq<char> {
        join_words(self.fragments(rule))
    }

    /// What `self` adds to the text of its parent: nothing where `rule` skips
    /// it, else its fragments.
    pub open spec fn kept<R: SkipRule>(self, rule: R) -> Seq<Seq<char>>
        decreases self, 1nat,
    {
        if self.skipped_by(rule) {
            Seq::empty()
        } else {
            self.fragments(rule)
        }
    }
}

/// What the first `upto` nodes of `nodes` add to the text of their parent.
pub open spec fn kept_fragments<R: SkipRule>(nodes: Seq<Node>, rule: R, upto: nat) -> Seq<
    Seq<char>,
>
    decreases nodes, upto,
{
    if 0 < upto <= nodes.len() {
        kept_fragments(nodes, rule, (upto - 1) as nat) + nodes[upto - 1].kept(rule)
    } else {
        Seq::empty()
    }
}

/// No fragment is empty or has whitespace at either end.
pub proof fn lemma_fragments_clean<R: SkipRule>(node: Node, rule: R)
    ensures
        all_clean(node.fragments(rule)),
        all_clean(node.kept(rule)),
    decreases node, 0nat,
{
    match node {
        Node::Element { tag, class, children } => {
            lemma_kept_fragments_clean(children@, rule, children@.len());
        },
        Node::Text(t) => {
            lemma_trimmed_ends(t@);
        },
        Node::Other => {},
    }
}

/// No fragment of a run of nodes is empty or has whitespace at either end.
pub proof fn lemma_kept_fragments_clean<R: SkipRule>(nodes: Seq<Node>, rule: R, upto: nat)
    ensures
        all_clean(kept_fragments(nodes, rule, upto)),
    decreases nodes, upto,
{
    if 0 < upto <= nodes.len() {
        lemma_kept_fragments_clean(nodes, rule, (upto - 1) as nat);
        lemma_fragments_clean(nodes[upto - 1], rule);
    }
}

/// The text of a node has no whitespace at either end: trimming it changes
/// nothing.
pub proof fn lemma_text_is_trimmed<R: SkipRule>(node: Node, rule: R)
    ensures
        trimmed(node.text(rule)) == node.text(rule),
{
    lemma_fragments_clean(node, rule);
    lemma_join_clean(node.fragments(rule));
}

/// The `class` attribute of an element as a slice: empty where it is absent.
fn class_of(class: &Option<String>) -> (text: &str)
    ensures
        text@ == class_text(*class),
{
    match class {
        Some(c) => c.as_str(),
        None => {
            proof {
                reveal_strlit("");
            }
            ""
        },
    }
}

/// Whether `node` is an element that `rule` leaves out.
fn is_skipped<R: SkipRule>(node: &Node, rule: &R) -> (skip: bool)
    ensures
        skip == node.skipped_by(*rule),
{
    match node {
        Node::Element { tag, class, children } => rule.should_skip(tag.as_str(), class_of(class)),
        _ => false,
    }
}

/// Gathers the text below `node`: the trimmed text of every text node in
/// document order, empty ones dropped, joined by single spaces. Elements that
/// `rule` skips contribute nothing; `node` itself is not put to `rule`.
pub fn collect_text<R: SkipRule>(node: &Node, rule: &R) -> (text: String)
    ensures
        text@ == node.text(*rule),
    decreases node,
{
    match node {
        Node::Element { tag, class, children } => {
            let mut text = String::new();
            let mut i: usize = 0;
            while i < children.len()
                invariant
                    i <= children.len(),
                    node is Element,
                    node->children == *children,
                    text@ == join_words(kept_fragments(children@, *rule, i as nat)),
                decreases children.len() - i,
            {
                let child = &children[i];
                let ghost before = kept_fragments(children@, *rule, i as nat);
                proof {
                    assert(decreases_to!(*node => node->children));
                    lemma_kept_fragments_clean(children@, *rule, i as nat);
                    lemma_fragments_clean(*child, *rule);
                    lemma_join_empty(before);
                    lemma_join_empty(child.kept(*rule));
                    lemma_join_concat(before, child.kept(*rule));
                }
                if !is_skipped(child, rule) {
                    let piece = collect_text(child, rule);
                    if !piece.as_str().is_empty() {
                        if !text.as_str().is_empty() {
                            proof {
                                reveal_strlit(" ");
                            }
                            text.append(" ");
                            assert(text@ =~= join_words(before) + seq![' ']);
                        }
                        text.append(piece.as_str());
                    }
                }
                i += 1;
            }
            text
        },
        Node::Text(t) => {
            let inner = trim(t.as_str());
            String::from_str(inner)
        },
        Node::Other => String::new(),
    }
}

} // verus!
