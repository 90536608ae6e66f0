use order_ledger::ledger::Order;
use order_ledger::ledger::OrderBook;
use order_ledger::ledger::OrderType;

#[test]
fn fresh_ledger_is_empty() {
    let book = OrderBook::new();
    assert_eq!(book.next_id, 1);
    assert!(book.buy_orders.is_empty());
    assert!(book.sell_orders.is_empty());
}

#[test]
fn order_new_keeps_fields() {
    let order = Order::new(7, OrderType::Sell, 12345, -250);
    assert_eq!(order.id, 7);
    assert_eq!(order.order_type, OrderType::Sell);
    assert_eq!(order.amount, 12345);
    assert_eq!(order.price, -250);
}

#[test]
fn identifiers_count_up_from_one() {
    let mut book = OrderBook::new();
    assert_eq!(book.add_order(OrderType::Buy, 10000, 5000), 1);
    assert_eq!(book.add_order(OrderType::Sell, 8000, 5200), 2);
    assert_eq!(book.add_order(OrderType::Buy, 20000, 4950), 3);
    assert_eq!(book.add_order(OrderType::Sell, 12000, 5350), 4);
    assert_eq!(book.next_id, 5);
}

#[test]
fn record_count_matches_submissions() {
    let mut book = OrderBook::new();
    book.add_order(OrderType::Buy, 10000, 5000);
    book.add_order(OrderType::Sell, 8000, 5200);
    book.add_order(OrderType::Sell, 12000, 5350);
    assert_eq!(book.buy_orders.len() + book.sell_orders.len(), 3);
}

#[test]
fn sides_hold_only_their_own_kind() {
    let mut book = OrderBook::new();
    book.add_order(OrderType::Buy, 10000, 5000);
    book.add_order(OrderType::Sell, 8000, 5200);
    book.add_order(OrderType::Buy, 15000, 5100);
    assert!(book.buy_orders.iter().all(|o| o.order_type == OrderType::Buy));
    assert!(book.sell_orders.iter().all(|o| o.order_type == OrderType::Sell));
    for buy in &book.buy_orders {
        assert!(book.sell_orders.iter().all(|sell| sell.id != buy.id));
    }
}

#[test]
fn three_bids_keep_submission_order() {
    let mut book = OrderBook::new();
    book.add_order(OrderType::Buy, 10000, 5000);
    book.add_order(OrderType::Buy, 20000, 4950);
    book.add_order(OrderType::Buy, 15000, 5100);
    let expected = vec![
        Order::new(1, OrderType::Buy, 10000, 5000),
        Order::new(2, OrderType::Buy, 20000, 4950),
        Order::new(3, OrderType::Buy, 15000, 5100),
    ];
    assert_eq!(book.buy_orders, expected);
    assert!(book.sell_orders.is_empty());
}

fn sample_book() -> OrderBook {
    let mut book = OrderBook::new();
    book.add_order(OrderType::Buy, 10000, 5000);
    book.add_order(OrderType::Buy, 20000, 4950);
    book.add_order(OrderType::Buy, 15000, 5100);
    book.add_order(OrderType::Sell, 8000, 5200);
    book.add_order(OrderType::Sell, 12000, 5350);
    book.add_order(OrderType::Sell, 9000, 5150);
    book
}

#[test]
fn six_submissions_fill_both_sides() {
    let book = sample_book();
    assert_eq!(book.buy_orders.len(), 3);
    assert_eq!(book.sell_orders.len(), 3);
    assert_eq!(
        book.buy_orders.iter().map(|o| o.id).collect::<Vec<u32>>(),
        vec![1, 2, 3]
    );
    assert_eq!(
        book.sell_orders.iter().map(|o| o.id).collect::<Vec<u32>>(),
        vec![4, 5, 6]
    );
    assert_eq!(book.next_id, 7);
    let report = book.render();
    assert!(!report.contains("No buy orders"));
    assert!(!report.contains("No sell orders"));
    assert_eq!(report.matches(" |\n").count(), 6);
}

#[test]
fn render_of_full_book_row_by_row() {
    let report = sample_book().render();
    let expected = "Bid listing:\n\
                    \x20 | 1 | 100.00 | 50.00 |\n\
                    \x20 | 2 | 200.00 | 49.50 |\n\
                    \x20 | 3 | 150.00 | 51.00 |\n\
                    \n\
                    Ask listing:\n\
                    \x20 | 4 | 80.00 | 52.00 |\n\
                    \x20 | 5 | 120.00 | 53.50 |\n\
                    \x20 | 6 | 90.00 | 51.50 |\n";
    assert_eq!(report, expected);
}

#[test]
fn render_of_fresh_ledger_reports_no_orders() {
    let book = OrderBook::new();
    let report = book.render();
    let expected = "Bid listing:\n\
                    \x20 No buy orders.\n\
                    \n\
                    Ask listing:\n\
                    \x20 No sell orders.\n";
    assert_eq!(report, expected);
    assert_eq!(book.next_id, 1);
}

#[test]
fn render_twice_is_identical() {
    let book = sample_book();
    assert_eq!(book.render(), book.render());
    let empty = OrderBook::new();
    assert_eq!(empty.render(), empty.render());
}

#[test]
fn one_sided_book_renders_one_message() {
    let mut book = OrderBook::new();
    book.add_order(OrderType::Sell, 100, -995);
    let report = book.render();
    let expected = "Bid listing:\n\
                    \x20 No buy orders.\n\
                    \n\
                    Ask listing:\n\
                    \x20 | 1 | 1.00 | -9.95 |\n";
    assert_eq!(report, expected);
}
