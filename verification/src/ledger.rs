//! The order ledger: buy and sell interest is submitted, each record receives
//! a fresh identifier from a per-ledger counter, is appended to the side it
//! belongs to, and the whole ledger can be rendered as a textual report.
//!
//! Quantities and prices are fixed-point numbers held in hundredths, so that
//! a value of `10000` renders as `100.00`.

use vstd::prelude::*;

use crate::digits::spec_fixed2;
use crate::digits::spec_udec;
use crate::digits::fixed2_to_string;
use crate::digits::u64_to_string;

verus! {

/// Whether an order expresses buying interest (a bid) or selling interest
/// (an ask).
#[derive(Debug, Clone, Copy, PartialEq, Eq, Structural)]
pub enum OrderType {
    Buy,
    Sell,
}

/// One order record: an identifier unique within its ledger, a side, and a
/// quantity and unit price in hundredths. Records never change once created.
#[derive(Debug, Clone, Copy, PartialEq, Eq, Structural)]
pub struct Order {
    pub id: u32,
    pub order_type: OrderType,
    pub amount: i64,
    pub price: i64,
}

impl Order {
    /// Builds a record from its four fields.
    pub fn new(id: u32, order_type: OrderType, amount: i64, price: i64) -> (order: Order)
        ensures
            order == (Order { id, order_type, amount, price }),
    {
        Order { id, order_type, amount, price }
    }
}

/// Whether some record in `s` carries the identifier `id`.
pub open spec fn seq_has_id(s: Seq<Order>, id: u32) -> bool {
    exists|i: int| 0 <= i < s.len() && s[i].id == id
}

/// Whether identifiers in `s` are strictly increasing with position.
pub open spec fn ids_increasing(s: Seq<Order>) -> bool {
    forall|i: int, j: int| 0 <= i < j < s.len() ==> s[i].id < s[j].id
}

/// One row of the report: the record's identifier, quantity and price,
/// separated by pipes, on a line of its own.
pub open spec fn spec_row(o: Order) -> Seq<char> {
    "  | "@ + spec_udec(o.id as nat) + " | "@ + spec_fixed2(o.amount as int) + " | "@
        + spec_fixed2(o.price as int) + " |\n"@
}

/// The rows for every record of `s`, in order.
pub open spec fn spec_rows(s: Seq<Order>) -> Seq<char>
    decreases s.len(),
{
    if s.len() == 0 {
        Seq::empty()
    } else {
        spec_rows(s.drop_last()) + spec_row(s.last())
    }
}

/// The body of one listing: its rows, or a message when the side is empty.
pub open spec fn spec_listing_body(s: Seq<Order>, empty_msg: Seq<char>) -> Seq<char> {
    if s.len() == 0 {
        empty_msg
    } else {
        spec_rows(s)
    }
}

/// The whole report: the bid listing, a blank line, then the ask listing.
pub open spec fn spec_render(book: OrderBook) -> Seq<char> {
    "Bid listing:\n"@ + spec_listing_body(book.buy_orders@, "  No buy orders.\n"@) + "\n"@
        + "Ask listing:\n"@ + spec_listing_body(book.sell_orders@, "  No sell orders.\n"@)
}

/// The ledger: two insertion-ordered sides and the next identifier to issue.
#[derive(Debug)]
pub struct OrderBook {
    pub buy_orders: Vec<Order>,
    pub sell_orders: Vec<Order>,
    pub next_id: u32,
}

impl OrderBook {
    /// How many records the ledger holds, both sides together.
    pub open spec fn order_count(self) -> int {
        self.buy_orders@.len() + self.sell_orders@.len() as int
    }

    /// Whether some record of the ledger carries the identifier `id`.
    pub open spec fn has_id(self, id: u32) -> bool {
        seq_has_id(self.buy_orders@, id) || seq_has_id(self.sell_orders@, id)
    }

    /// Well-formedness. Every reachable ledger satisfies this: the counter
    /// always exceeds the number of records by one, each side holds only
    /// records of its own kind, identifiers grow with insertion order, the
    /// identifiers present are exactly `1 ..= order_count()`, and no
    /// identifier is on both sides.
    pub open spec fn wf(self) -> bool {
        &&& self.next_id as int == self.order_count() + 1
        &&& forall|i: int|
            0 <= i < self.buy_orders@.len() ==> (#[trigger] self.buy_orders@[i]).order_type
                == OrderType::Buy
        &&& forall|i: int|
            0 <= i < self.sell_orders@.len() ==> (#[trigger] self.sell_orders@[i]).order_type
                == OrderType::Sell
        &&& ids_increasing(self.buy_orders@)
        &&& ids_increasing(self.sell_orders@)
        &&& forall|id: u32| #[trigger] self.has_id(id) <==> 1 <= id < self.next_id
        &&& forall|id: u32|
            !(#[trigger] seq_has_id(self.buy_orders@, id) && seq_has_id(self.sell_orders@, id))
    }

    /// A fresh ledger: both sides empty, the first identifier to issue is 1.
    pub fn new() -> (book: OrderBook)
        ensures
            book.wf(),
            book.next_id == 1,
            book.buy_orders@ == Seq::<Order>::empty(),
            book.sell_orders@ == Seq::<Order>::empty(),
    {
        let book = OrderBook { buy_orders: Vec::new(), sell_orders: Vec::new(), next_id: 1 };
        proof {
            assert(book.buy_orders@ =~= Seq::<Order>::empty());
            assert(book.sell_orders@ =~= Seq::<Order>::empty());
        }
        book
    }

    /// Submits one order: issues the next identifier, builds the record, and
    /// appends it to the side named by `order_type`. Returns the identifier,
    /// which equals the number of submissions made so far (this one
    /// included), so the identifiers issued by a fresh ledger are exactly
    /// `1, 2, 3, ...` in call order. The other side and all existing records
    /// are untouched.
    pub fn add_order(&mut self, order_type: OrderType, amount: i64, price: i64) -> (id: u32)
        requires
            old(self).wf(),
            old(self).next_id < u32::MAX,
        ensures
            final(self).wf(),
            id == old(self).next_id,
            id as int == old(self).order_count() + 1,
            !old(self).has_id(id),
            final(self).has_id(id),
            final(self).next_id == old(self).next_id + 1,
            final(self).order_count() == old(self).order_count() + 1,
            order_type == OrderType::Buy ==> final(self).buy_orders@ == old(
                self,
            ).buy_orders@.push(Order { id, order_type, amount, price }) && final(self).sell_orders@
                == old(self).sell_orders@,
            order_type == OrderType::Sell ==> final(self).sell_orders@ == old(
                self,
            ).sell_orders@.push(Order { id, order_type, amount, price }) && final(self).buy_orders@
                == old(self).buy_orders@,
    {
        let id = self.next_id;
        let order = Order::new(id, order_type, amount, price);
        self.next_id = self.next_id + 1;
        match order_type {
            OrderType::Buy => self.buy_orders.push(order),
            OrderType::Sell => self.sell_orders.push(order),
        }
        proof {
            lemma_add_order_wf(*old(self), *self, order);
        }
        id
    }

    /// Renders the ledger: the bid listing first, a blank line, then the ask
    /// listing, each side row by row in insertion order, or a message when a
    /// side is empty. A pure read: the result is a function of the ledger's
    /// contents alone, so repeated calls without an intervening submission
    /// return identical reports.
    pub fn render(&self) -> (r: String)
        ensures
            r@ == spec_render(*self),
    {
        let mut out = String::from_str("Bid listing:\n");
        if self.buy_orders.len() == 0 {
            out.append("  No buy orders.\n");
        } else {
            let mut i: usize = 0;
            while i < self.buy_orders.len()
                invariant
                    i <= self.buy_orders@.len(),
                    out@ == "Bid listing:\n"@ + spec_rows(self.buy_orders@.take(i as int)),
                decreases self.buy_orders@.len() - i,
            {
                let row = row_string(&self.buy_orders[i]);
                out.append(row.as_str());
                proof {
                    lemma_spec_rows_take_step(self.buy_orders@, i as int);
                    assert(out@ =~= "Bid listing:\n"@ + spec_rows(
                        self.buy_orders@.take(i as int + 1),
                    ));
                }
                i = i + 1;
            }
            proof {
                assert(self.buy_orders@.take(self.buy_orders@.len() as int) =~= self.buy_orders@);
            }
        }
        out.append("\n");
        out.append("Ask listing:\n");
        if self.sell_orders.len() == 0 {
            out.append("  No sell orders.\n");
        } else {
            let ghost prefix = out@;
            let mut i: usize = 0;
            while i < self.sell_orders.len()
                invariant
                    i <= self.sell_orders@.len(),
                    out@ == prefix + spec_rows(self.sell_orders@.take(i as int)),
                decreases self.sell_orders@.len() - i,
            {
                let row = row_string(&self.sell_orders[i]);
                out.append(row.as_str());
                proof {
                    lemma_spec_rows_take_step(self.sell_orders@, i as int);
                    assert(out@ =~= prefix + spec_rows(self.sell_orders@.take(i as int + 1)));
                }
                i = i + 1;
            }
            proof {
                assert(self.sell_orders@.take(self.sell_orders@.len() as int)
                    =~= self.sell_orders@);
            }
        }
        proof {
            assert(out@ =~= spec_render(*self));
        }
        out
    }
}

/// One report row for the record `o`.
fn row_string(o: &Order) -> (r: String)
    ensures
        r@ == spec_row(*o),
{
    let mut s = String::from_str("  | ");
    s.append(u64_to_string(o.id as u64).as_str());
    s.append(" | ");
    s.append(fixed2_to_string(o.amount).as_str());
    s.append(" | ");
    s.append(fixed2_to_string(o.price).as_str());
    s.append(" |\n");
    proof {
        assert(s@ =~= spec_row(*o));
    }
    s
}

/// Law: the identifiers present in a well-formed ledger are exactly
/// `1 ..= order_count()`, with no gaps and no repeats — so after any sequence
/// of submissions on a fresh ledger the identifiers returned were exactly
/// `1, 2, ..., order_count()` in call order.
pub proof fn lemma_ids_exactly_issued(book: OrderBook)
    requires
        book.wf(),
    ensures
        forall|id: u32| #[trigger] book.has_id(id) <==> 1 <= id as int <= book.order_count(),
{
}

/// Law: in a well-formed ledger the two sides together hold one record per
/// submission made, since the counter advances by exactly one each time.
pub proof fn lemma_count_matches_submissions(book: OrderBook)
    requires
        book.wf(),
    ensures
        book.order_count() == book.next_id - 1,
{
}

/// Law: the sides partition the records — every buy-side record has kind
/// `Buy`, every sell-side record has kind `Sell`, and no identifier appears
/// on both sides.
pub proof fn lemma_sides_partitioned(book: OrderBook)
    requires
        book.wf(),
    ensures
        forall|i: int|
            0 <= i < book.buy_orders@.len() ==> (#[trigger] book.buy_orders@[i]).order_type
                == OrderType::Buy,
        forall|i: int|
            0 <= i < book.sell_orders@.len() ==> (#[trigger] book.sell_orders@[i]).order_type
                == OrderType::Sell,
        forall|id: u32|
            !(#[trigger] seq_has_id(book.buy_orders@, id) && seq_has_id(book.sell_orders@, id)),
{
}

/// Law: rendering is idempotent — any two reports of the same ledger are
/// identical, since a report is a function of the ledger's contents alone.
pub proof fn lemma_render_idempotent(book: OrderBook, r1: Seq<char>, r2: Seq<char>)
    requires
        r1 == spec_render(book),
        r2 == spec_render(book),
    ensures
        r1 == r2,
{
}

/// Taking one more record appends exactly one more row.
proof fn lemma_spec_rows_take_step(s: Seq<Order>, i: int)
    requires
        0 <= i < s.len(),
    ensures
        spec_rows(s.take(i + 1)) == spec_rows(s.take(i)) + spec_row(s[i]),
{
    assert(s.take(i + 1).drop_last() =~= s.take(i));
    assert(s.take(i + 1).last() == s[i]);
}

/// Pushing a record onto a side adds exactly its identifier to those present.
proof fn lemma_seq_has_id_push(s: Seq<Order>, o: Order, id: u32)
    ensures
        seq_has_id(s.push(o), id) <==> (seq_has_id(s, id) || o.id == id),
{
    if seq_has_id(s.push(o), id) {
        let i = choose|i: int| 0 <= i < s.push(o).len() && s.push(o)[i].id == id;
        if i < s.len() {
            assert(s[i].id == id);
        }
    }
    if seq_has_id(s, id) {
        let i = choose|i: int| 0 <= i < s.len() && s[i].id == id;
        assert(s.push(o)[i].id == id);
    }
    if o.id == id {
        assert(s.push(o)[s.len() as int].id == id);
    }
}

/// One submission preserves well-formedness: `post` is `pre` with the record
/// `o`, carrying the previously next identifier, appended to its side.
proof fn lemma_add_order_wf(pre: OrderBook, post: OrderBook, o: Order)
    requires
        pre.wf(),
        pre.next_id < u32::MAX,
        o.id == pre.next_id,
        post.next_id == pre.next_id + 1,
        o.order_type == OrderType::Buy ==> post.buy_orders@ == pre.buy_orders@.push(o)
            && post.sell_orders@ == pre.sell_orders@,
        o.order_type == OrderType::Sell ==> post.sell_orders@ == pre.sell_orders@.push(o)
            && post.buy_orders@ == pre.buy_orders@,
    ensures
        post.wf(),
        post.has_id(o.id),
        !pre.has_id(o.id),
{
    assert(!pre.has_id(o.id));
    if o.order_type == OrderType::Buy {
        assert forall|id: u32| #[trigger]
            seq_has_id(post.buy_orders@, id) <==> (seq_has_id(pre.buy_orders@, id) || id
                == o.id) by {
            lemma_seq_has_id_push(pre.buy_orders@, o, id);
        }
        assert(ids_increasing(post.buy_orders@)) by {
            assert forall|i: int, j: int|
                0 <= i < j < post.buy_orders@.len() implies post.buy_orders@[i].id
                < post.buy_orders@[j].id by {
                if j == pre.buy_orders@.len() {
                    assert(seq_has_id(pre.buy_orders@, pre.buy_orders@[i].id));
                    assert(pre.has_id(pre.buy_orders@[i].id));
                }
            }
        }
    } else {
        assert forall|id: u32| #[trigger]
            seq_has_id(post.sell_orders@, id) <==> (seq_has_id(pre.sell_orders@, id) || id
                == o.id) by {
            lemma_seq_has_id_push(pre.sell_orders@, o, id);
        }
        assert(ids_increasing(post.sell_orders@)) by {
            assert forall|i: int, j: int|
                0 <= i < j < post.sell_orders@.len() implies post.sell_orders@[i].id
                < post.sell_orders@[j].id by {
                if j == pre.sell_orders@.len() {
                    assert(seq_has_id(pre.sell_orders@, pre.sell_orders@[i].id));
                    assert(pre.has_id(pre.sell_orders@[i].id));
                }
            }
        }
    }
    assert forall|id: u32| #[trigger] post.has_id(id) <==> 1 <= id < post.next_id by {
        assert(pre.has_id(id) <==> 1 <= id < pre.next_id);
    }
    assert forall|id: u32|
        !(#[trigger] seq_has_id(post.buy_orders@, id) && seq_has_id(post.sell_orders@, id)) by {
        if id == o.id {
            assert(!pre.has_id(id));
        }
    }
}

} // verus!
