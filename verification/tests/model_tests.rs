use oxidyn::{Flow, Model, Num, Stock};

#[test]
fn test_simple_constant() {
    let mut model = Model::new("my_model");

    model.add_stock(Stock::new("amount", "Amount", Num::from_int(0), "units"));
    model.add_flow(Flow::constant("input", "Input", Num::from_int(2), "units").to_stock("amount"));
    model.add_flow(Flow::constant("output", "Output", Num::from_int(1), "units").from_stock("amount"));
    model.set_time_step(Num::from_int(1));

    let res = model.simulate(Num::from_int(5));

    let expected: Vec<Num> = (0..=5).map(Num::from_int).collect();
    assert_eq!(res.time_series, expected);

    assert_eq!(res.stock_values.len(), 1);
    assert_eq!(res.stock_values[0].id, "amount");
    assert_eq!(res.stock_values[0].values, expected);
}

#[test]
fn test_stella_population_example() {
    let mut model = Model::new("stella_model");

    model.add_stock(Stock::new("population", "Population", Num::from_int(25), "people"));
    model.add_flow(
        Flow::linear(
            "births",
            "Birth Rate",
            Num::from_ratio(5, 100),
            Num::from_int(0),
            "population",
            "people/time",
        )
        .to_stock("population"),
    );
    model.add_flow(
        Flow::linear(
            "deaths",
            "Death Rate",
            Num::from_ratio(1, 60),
            Num::from_int(0),
            "population",
            "people/time",
        )
        .from_stock("population"),
    );
    model.set_time_step(Num::from_int(1));

    let res = model.simulate(Num::from_int(100));

    let expected_final_value = 664;
    let actual_final_value =
        *res.stock_series("population").unwrap().last().unwrap();

    // The fixed-point trajectory tracks the real one closely; check approx.
    let actual = actual_final_value.raw as f64 / 1_000_000.0;
    assert!((expected_final_value as f64) - actual < 1.0);
}

#[test]
fn test_stock_constraints() {
    let mut model = Model::new("drainage_model");

    model.add_stock(
        Stock::new("tank", "Water Tank", Num::from_int(10), "liters")
            .with_min(Num::from_int(0))
            .with_max(Num::from_int(15)),
    );
    model.add_flow(Flow::constant("drain", "Drainage", Num::from_int(5), "liters/time").from_stock("tank"));
    model.set_time_step(Num::from_int(1));

    let res = model.simulate(Num::from_int(3));
    assert_eq!(
        *res.stock_series("tank").unwrap(),
        vec![
            Num::from_int(10),
            Num::from_int(5),
            Num::from_int(0),
            Num::from_int(0)
        ]
    );

    model.add_flow(Flow::constant("line", "Feeder Line", Num::from_int(10), "liters/time").to_stock("tank"));

    let res = model.simulate(Num::from_int(4));

    let tank_values = res.stock_series("tank").unwrap();
    for (i, value) in tank_values.iter().enumerate() {
        assert!(
            value.raw >= 0,
            "Stock value at time {} is negative: {}",
            res.time_series[i].raw,
            value.raw
        );
        assert!(
            *value <= Num::from_int(15),
            "Stock value at time {} is more than 15: {}",
            res.time_series[i].raw,
            value.raw
        );
    }
    let final_val = tank_values.last().unwrap();
    assert_eq!(*final_val, Num::from_int(15), "Final stock should be 15.0")
}

#[test]
fn test_result_alignment() {
    let mut model = Model::new("alignment");
    model.add_stock(Stock::new("a", "A", Num::from_int(1), "units"));
    model.add_stock(Stock::new("b", "B", Num::from_int(2), "units"));
    model.set_time_step(Num::from_int(1));

    let res = model.simulate(Num::from_int(7));

    assert_eq!(res.time_series.len(), 8);
    assert_eq!(res.stock_series("a").unwrap().len(), res.time_series.len());
    assert_eq!(res.stock_series("b").unwrap().len(), res.time_series.len());
}

#[test]
fn test_requery_idempotent() {
    let mut model = Model::new("requery");
    model.add_stock(Stock::new("a", "A", Num::from_int(3), "units"));
    model.set_time_step(Num::from_int(1));

    let res = model.simulate(Num::from_int(2));

    let first = res.stock_series("a").unwrap().clone();
    let second = res.stock_series("a").unwrap().clone();
    assert_eq!(first, second);
    let t1 = res.times().clone();
    let t2 = res.times().clone();
    assert_eq!(t1, t2);
}

#[test]
fn test_duplicate_stock_id_overwrites() {
    let mut model = Model::new("dups");
    model.add_stock(Stock::new("a", "First", Num::from_int(1), "units"));
    model.add_stock(Stock::new("a", "Second", Num::from_int(9), "units"));

    assert_eq!(model.state.stocks.len(), 1);
    assert_eq!(model.state.stocks[0].name, "Second");
    assert_eq!(model.state.get_stock_value("a"), Some(Num::from_int(9)));
}

#[test]
fn test_empty_model_records_times_only() {
    let mut model = Model::new("empty");
    model.set_time_step(Num::from_int(1));
    let res = model.simulate(Num::from_int(3));

    let expected: Vec<Num> = (0..=3).map(Num::from_int).collect();
    assert_eq!(res.time_series, expected);
    assert!(res.stock_values.is_empty());
}

#[test]
fn test_inert_flow_has_no_effect() {
    let mut model = Model::new("inert");
    model.add_stock(Stock::new("a", "A", Num::from_int(4), "units"));
    model.add_flow(Flow::constant("noop", "No-op", Num::from_int(100), "units"));
    model.set_time_step(Num::from_int(1));

    let res = model.simulate(Num::from_int(2));
    assert_eq!(
        *res.stock_series("a").unwrap(),
        vec![Num::from_int(4), Num::from_int(4), Num::from_int(4)]
    );
}

#[test]
fn test_self_loop_nets_to_zero() {
    let mut model = Model::new("self_loop");
    model.add_stock(Stock::new("a", "A", Num::from_int(4), "units"));
    model.add_flow(
        Flow::constant("cycle", "Cycle", Num::from_int(3), "units")
            .from_stock("a")
            .to_stock("a"),
    );
    model.set_time_step(Num::from_int(1));

    let res = model.simulate(Num::from_int(2));
    assert_eq!(
        *res.stock_series("a").unwrap(),
        vec![Num::from_int(4), Num::from_int(4), Num::from_int(4)]
    );
}

#[test]
fn test_simulate_chains_across_calls() {
    let mut model = Model::new("chained");
    model.add_stock(Stock::new("a", "A", Num::from_int(0), "units"));
    model.add_flow(Flow::constant("in", "In", Num::from_int(1), "units").to_stock("a"));
    model.set_time_step(Num::from_int(1));

    let _ = model.simulate(Num::from_int(2));
    assert_eq!(model.state.time, Num::from_int(2));
    assert_eq!(model.state.get_stock_value("a"), Some(Num::from_int(2)));

    let res = model.simulate(Num::from_int(3));
    assert_eq!(
        res.time_series,
        vec![
            Num::from_int(2),
            Num::from_int(3),
            Num::from_int(4),
            Num::from_int(5)
        ]
    );
    assert_eq!(model.state.get_stock_value("a"), Some(Num::from_int(5)));
}

#[test]
fn test_negative_duration_records_start_only() {
    let mut model = Model::new("backward");
    model.add_stock(Stock::new("a", "A", Num::from_int(1), "units"));
    model.set_time_step(Num::from_int(1));

    let res = model.simulate(Num::from_int(-1));
    assert_eq!(res.time_series, vec![Num::from_int(0)]);
    assert_eq!(*res.stock_series("a").unwrap(), vec![Num::from_int(1)]);
    assert_eq!(model.state.time, Num::from_int(0));
}

#[test]
fn test_stock_series_twice_agrees() {
    let mut model = Model::new("twice");
    model.add_stock(Stock::new("a", "A", Num::from_int(1), "units"));
    model.set_time_step(Num::from_int(1));
    let res = model.simulate(Num::from_int(1));

    let (first, second) = res.stock_series_twice("a");
    assert_eq!(first.unwrap(), second.unwrap());
    let (none_a, none_b) = res.stock_series_twice("absent");
    assert!(none_a.is_none() && none_b.is_none());
}
