use oxidyn::{Num, Stock};

#[test]
fn test_stock_creation() {
    let id = "ID";
    let name = "NAME";
    let initial_value = Num::from_int(1);
    let current_value = Num::from_int(1);
    let units = "UNITS";

    let stock = Stock::new(id, name, initial_value, units);

    assert_eq!(stock.id, id);
    assert_eq!(stock.name, name);
    assert_eq!(stock.initial_value, initial_value);
    assert_eq!(stock.current_value, current_value);
    assert_eq!(stock.units, units);
}

#[test]
fn test_stock_bounds_builders() {
    let stock = Stock::new("s", "S", Num::from_int(3), "units")
        .with_min(Num::from_int(0))
        .with_max(Num::from_int(7));
    assert_eq!(stock.min_value, Some(Num::from_int(0)));
    assert_eq!(stock.max_value, Some(Num::from_int(7)));

    let replaced = stock.with_min(Num::from_int(1));
    assert_eq!(replaced.min_value, Some(Num::from_int(1)));
    assert_eq!(replaced.max_value, Some(Num::from_int(7)));
}
