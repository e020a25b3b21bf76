use oxidyn::{Flow, Model, Num, StockArray};

#[test]
fn test_stock_array_creation() {
    let arr = StockArray::new("test", "Test Array", 5, Num::from_int(1), "units");

    assert_eq!(arr.base_id, "test");
    assert_eq!(arr.size, 5);
    assert_eq!(arr.initial_values.len(), 5);
    assert!(arr.initial_values.iter().all(|&v| v == Num::from_int(1)));
}

#[test]
fn test_stock_array_with_values() {
    let values = vec![Num::from_int(1), Num::from_int(2), Num::from_int(3)];
    let arr = StockArray::from_values("test", "Test", values.clone(), "units");

    assert_eq!(arr.size, 3);
    assert_eq!(arr.initial_values, values);
}

#[test]
fn test_stock_array_expand() {
    let arr = StockArray::new("mem", "Memory", 3, Num::from_ratio(1, 2), "items");
    let stocks = arr.expand();

    assert_eq!(stocks.len(), 3);
    assert_eq!(stocks[0].id, "mem[0]");
    assert_eq!(stocks[1].id, "mem[1]");
    assert_eq!(stocks[2].id, "mem[2]");
    assert!(stocks.iter().all(|s| s.initial_value == Num::from_ratio(1, 2)));
}

#[test]
fn test_stock_array_with_constraints() {
    let arr = StockArray::new("test", "Test", 2, Num::from_int(5), "units")
        .with_min(Num::from_int(0))
        .with_max(Num::from_int(10));

    let stocks = arr.expand();
    assert_eq!(stocks[0].min_value, Some(Num::from_int(0)));
    assert_eq!(stocks[0].max_value, Some(Num::from_int(10)));
    assert_eq!(stocks[1].min_value, Some(Num::from_int(0)));
    assert_eq!(stocks[1].max_value, Some(Num::from_int(10)));
}

#[test]
fn test_stock_array_in_model() {
    let arr_size = 3;
    let mut model = Model::new("array_test");

    let arr = StockArray::new("memory", "Memory", arr_size, Num::from_int(1), "strength");
    model.add_stock_array(arr.clone());

    // add flows to each array element
    for i in 0..arr_size {
        model.add_flow(
            Flow::constant(&format!("decay_{}", i), "Decay", Num::from_ratio(1, 10), "strength/sec")
                .from_stock(&arr.stock_id(i)),
        );
    }

    let result = model.simulate(Num::from_int(5));

    // check that all stocks exist and have decayed
    for i in 0..3 {
        let stock_id = arr.stock_id(i);
        let values = result.stock_series(&stock_id).unwrap();

        let initial = values.first().unwrap();
        let final_val = values.last().unwrap();

        assert!(*initial > *final_val, "Stock {} should have decayed", i);
    }
}

#[test]
fn test_stock_id_multi_digit_index() {
    let arr = StockArray::new("cell", "Cell", 12, Num::from_int(0), "units");
    assert_eq!(arr.stock_id(0), "cell[0]");
    assert_eq!(arr.stock_id(9), "cell[9]");
    assert_eq!(arr.stock_id(10), "cell[10]");
    assert_eq!(arr.stock_id(11), "cell[11]");
    let stocks = arr.expand();
    assert_eq!(stocks[11].id, "cell[11]");
    assert_eq!(stocks[11].name, "Cell [11]");
}
