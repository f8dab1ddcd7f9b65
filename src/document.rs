//! The whole document: its items, in source order.
use vstd::prelude::*;

use crate::error::{unexpected, ErrorView, ParseResult};
use crate::item::{item_of, Item, ItemView};
use crate::tree::{Node, Parse, Rule};

verus! {

/// The items of the document's top-level nodes `ns`: one for each `section`,
/// none for the end of input; or the error of the first node that fails.
pub open spec fn items_of(ns: Seq<Node>) -> Result<Seq<ItemView>, ErrorView>
    decreases ns.len(),
{
    if ns.len() == 0 {
        Ok(Seq::empty())
    } else {
        match items_of(ns.subrange(0, ns.len() - 1)) {
            Err(e) => Err(e),
            Ok(items) => {
                let n = ns[ns.len() - 1];
                if n.rule == Rule::section {
                    match item_of(n) {
                        Err(e) => Err(e),
                        Ok(item) => Ok(items.push(item)),
                    }
                } else if n.rule == Rule::EOI {
                    Ok(items)
                } else {
                    Err(ErrorView::UnexpectedRule { rule: n.rule, origin: "parse-file"@ })
                }
            },
        }
    }
}

/// The items of the document whose root node is `file`.
pub open spec fn document_of(file: Node) -> Result<Seq<ItemView>, ErrorView> {
    items_of(file.inner@)
}

/// The mathematical form of built items, or of the error instead.
pub open spec fn items_result_view(r: ParseResult<Vec<Item>>) -> Result<Seq<ItemView>, ErrorView> {
    match r {
        Ok(v) => Ok(v@.map_values(|i: Item| i@)),
        Err(e) => Err(e@),
    }
}

/// An error met among the first `k` nodes is the error of all of them.
proof fn lemma_items_of_failed_prefix(ns: Seq<Node>, k: int)
    requires
        0 <= k <= ns.len(),
        items_of(ns.subrange(0, k)) is Err,
    ensures
        items_of(ns) == items_of(ns.subrange(0, k)),
    decreases ns.len() - k,
{
    if k == ns.len() {
        assert(ns.subrange(0, k) =~= ns);
    } else {
        assert(ns.subrange(0, k + 1).subrange(0, k) =~= ns.subrange(0, k));
        lemma_items_of_failed_prefix(ns, k + 1);
    }
}

/// The `section` nodes among `ns`, in order.
pub open spec fn sections(ns: Seq<Node>) -> Seq<Node> {
    ns.filter(|n: Node| n.rule == Rule::section)
}

/// The items of a document come one for each `section` node, in the order
/// of those nodes.
pub proof fn lemma_items_of_in_order(ns: Seq<Node>)
    ensures
        items_of(ns) is Ok ==> {
            &&& items_of(ns)->Ok_0.len() == sections(ns).len()
            &&& forall|i: int|
                0 <= i < sections(ns).len() ==> item_of(#[trigger] sections(ns)[i]) == Ok::<
                    ItemView,
                    ErrorView,
                >(items_of(ns)->Ok_0[i])
        },
    decreases ns.len(),
{
    reveal(Seq::filter);
    if ns.len() > 0 {
        let prefix = ns.subrange(0, ns.len() - 1);
        lemma_items_of_in_order(prefix);
        assert(ns.drop_last() == prefix);
    }
}

/// A document whose top-level nodes all mark the end of input has no items,
/// and is no error.
pub proof fn lemma_empty_document(file: Node)
    requires
        forall|i: int| 0 <= i < file.inner@.len() ==> (#[trigger] file.inner@[i]).rule == Rule::EOI,
    ensures
        document_of(file) == Ok::<Seq<ItemView>, ErrorView>(Seq::empty()),
{
    lemma_items_of_eoi(file.inner@);
}

proof fn lemma_items_of_eoi(ns: Seq<Node>)
    requires
        forall|i: int| 0 <= i < ns.len() ==> (#[trigger] ns[i]).rule == Rule::EOI,
    ensures
        items_of(ns) == Ok::<Seq<ItemView>, ErrorView>(Seq::empty()),
    decreases ns.len(),
{
    if ns.len() > 0 {
        let prefix = ns.subrange(0, ns.len() - 1);
        assert forall|i: int| 0 <= i < prefix.len() implies (#[trigger] prefix[i]).rule
            == Rule::EOI by {
            assert(prefix[i] == ns[i]);
        }
        lemma_items_of_eoi(prefix);
    }
}

/// Building the same parse tree twice gives the same items, or the same
/// error.
pub proof fn lemma_parse_tree_deterministic(
    file: Node,
    r1: ParseResult<Vec<Item>>,
    r2: ParseResult<Vec<Item>>,
)
    requires
        items_result_view(r1) == document_of(file),
        items_result_view(r2) == document_of(file),
    ensures
        items_result_view(r1) == items_result_view(r2),
{
}

/// Builds the items of the document whose root node is `file`, from its
/// children in order: a `section` gives an item, the end of input gives
/// nothing, any other tag is an error.
pub fn parse_tree(file: &Node) -> (r: ParseResult<Vec<Item>>)
    ensures
        items_result_view(r) == document_of(*file),
{
    let nodes = &file.inner;
    let mut items: Vec<Item> = Vec::new();
    let mut i: usize = 0;
    proof {
        assert(nodes@.subrange(0, 0) =~= Seq::<Node>::empty());
        assert(items@.map_values(|x: Item| x@) =~= Seq::<ItemView>::empty());
    }
    while i < nodes.len()
        invariant
            nodes == &file.inner,
            0 <= i <= nodes.len(),
            items_of(nodes@.subrange(0, i as int)) == Ok::<Seq<ItemView>, ErrorView>(
                items@.map_values(|x: Item| x@),
            ),
        decreases nodes.len() - i,
    {
        let line = &nodes[i];
        proof {
            assert(nodes@.subrange(0, i + 1).subrange(0, i as int) =~= nodes@.subrange(
                0,
                i as int,
            ));
            assert(nodes@.subrange(0, i + 1)[i as int] == nodes@[i as int]);
        }
        if line.rule == Rule::section {
            match Item::parse(line) {
                Err(e) => {
                    proof {
                        lemma_items_of_failed_prefix(nodes@, i + 1);
                    }
                    return Err(e);
                },
                Ok(item) => {
                    let ghost old_items = items@;
                    items.push(item);
                    proof {
                        assert(items@.map_values(|x: Item| x@) =~= old_items.map_values(
                            |x: Item| x@,
                        ).push(item@));
                    }
                },
            }
        } else if line.rule != Rule::EOI {
            let r = unexpected("parse-file", line.rule);
            proof {
                lemma_items_of_failed_prefix(nodes@, i + 1);
            }
            return r;
        }
        i = i + 1;
    }
    proof {
        assert(nodes@.subrange(0, nodes.len() as int) =~= nodes@);
    }
    Ok(items)
}

} // verus!
