use oxidyn::{Num, Stock, SystemState};

#[test]
fn test_get_stock_names() {
    let mut state = SystemState::new();
    assert!(state.get_stock_names().is_empty());

    state.stocks.push(Stock::new("a", "A", Num::from_int(1), "units"));
    state.stocks.push(Stock::new("b", "B", Num::from_int(2), "units"));

    assert_eq!(state.get_stock_names(), vec!["a", "b"]);
}

#[test]
fn test_set_stock_value() {
    let mut state = SystemState::new();
    state.stocks.push(Stock::new("a", "A", Num::from_int(1), "units"));

    state.set_stock_value("a", Num::from_int(4));
    assert_eq!(state.get_stock_value("a"), Some(Num::from_int(4)));

    // setting an unknown id is a silent no-op
    state.set_stock_value("ghostly", Num::from_int(9));
    assert_eq!(state.get_stock_value("ghostly"), None);
    assert_eq!(state.get_stock_value("a"), Some(Num::from_int(4)));
    assert_eq!(state.stocks.len(), 1);
}

#[test]
fn test_get_stock_value_missing() {
    let state = SystemState::new();
    assert_eq!(state.get_stock_value("nothing"), None);
}
