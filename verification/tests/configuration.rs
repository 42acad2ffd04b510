use zkevm_circuits::expression::{Advice, AnyColumn, Cell, Column, Expression, Fixed, Rotation};
use zkevm_circuits::field::Field;
use zkevm_circuits::pallas::Pallas;
use zkevm_circuits::state_circuit::config::{
    power_of_randomness, BinaryNumberConfig, LexicographicOrderingConfig,
};
use zkevm_circuits::state_circuit::configuration::{
    Answer, Configuration, IntegerKind, Lookup, Request,
};
use zkevm_circuits::state_circuit::StateCircuit;

/// A chip goes by a number here.
type Steps = Configuration<Pallas, u32, false>;

fn advice(index: usize) -> Column<Advice> {
    Column { index, kind: Advice }
}

fn fixed(index: usize) -> Column<Fixed> {
    Column { index, kind: Fixed }
}

fn cell(index: usize) -> Expression<Pallas> {
    Expression::Cell(Cell { column: AnyColumn::Advice(advice(index)), rotation: Rotation(0) })
}

fn ordering() -> LexicographicOrderingConfig<u32> {
    LexicographicOrderingConfig {
        selector: fixed(1),
        first_different_limb: BinaryNumberConfig { bits: [20, 21, 22, 23, 24].map(advice) },
        chip: 105,
    }
}

/// The low half of a constant.
fn constant(e: &Expression<Pallas>) -> u128 {
    match e {
        Expression::Constant(c) => c.to_halves().0,
        _ => panic!("not a constant"),
    }
}

fn describe(request: &Request<Pallas, u32, false>) -> String {
    match request {
        Request::FixedColumn => "fixed".to_string(),
        Request::Lookups => "lookups".to_string(),
        Request::AdviceColumn => "advice".to_string(),
        Request::BinaryNumber { selector } => format!("binary {}", selector.index),
        Request::MultiplePrecisionInteger { selector, lookups, kind, limbs } => {
            let kind = match kind {
                IntegerKind::U32 => "u32",
                IntegerKind::Address => "address",
            };
            format!("integer {} {lookups} {kind} {limbs}", selector.index)
        }
        Request::RandomLinearCombination { selector, lookups, bytes, power_of_randomness } => {
            assert_eq!(power_of_randomness.len(), 31);
            format!("rlc {} {lookups} {bytes} {}", selector.index, constant(&power_of_randomness[2]))
        }
        Request::LexicographicOrder { sort_keys, lookups, power_of_randomness } => {
            assert_eq!(power_of_randomness.len(), 31);
            format!(
                "order {:?} {} {} {} {} {} {lookups}",
                sort_keys.tag.bits.map(|c| c.index),
                sort_keys.id,
                sort_keys.address,
                sort_keys.field_tag.index,
                sort_keys.storage_key,
                sort_keys.rw_counter,
            )
        }
        Request::Gate { name, config } => {
            assert_eq!(config.power_of_randomness.len(), 31);
            format!("gate {name} {} {}", config.selector.index, config.initial_value.index)
        }
        Request::LookupAny { name, table_map } => {
            assert_eq!(table_map.len(), 1);
            format!("lookup {name} {:?} {:?}", table_map[0].0, table_map[0].1)
        }
        Request::Done => "done".to_string(),
    }
}

fn answers(lookups: Vec<Lookup<Pallas>>) -> Vec<Answer<Pallas, u32>> {
    let mut answers = vec![
        Answer::FixedColumn(fixed(0)),
        Answer::Chip(100),
        Answer::AdviceColumn(advice(2)),
        Answer::AdviceColumn(advice(3)),
        Answer::AdviceColumn(advice(4)),
        Answer::AdviceColumn(advice(5)),
        Answer::BinaryNumber(BinaryNumberConfig { bits: [6, 7, 8, 9].map(advice) }),
        Answer::Chip(101),
        Answer::Chip(102),
        Answer::Chip(103),
        Answer::Chip(104),
        Answer::LexicographicOrder(ordering()),
    ];
    let n = lookups.len();
    answers.push(Answer::Gate(lookups));
    answers.extend((0..n).map(|_| Answer::LookupAny));
    answers
}

#[test]
fn requests_come_in_order() {
    let mut steps = Steps::new(3);
    let mut log = Vec::new();
    let lookups = vec![
        Lookup { name: "first", input: cell(30), table: cell(31) },
        Lookup { name: "second", input: cell(32), table: cell(33) },
    ];
    for answer in answers(lookups) {
        log.push(describe(&steps.request()));
        assert!(steps.answer(answer));
    }
    log.push(describe(&steps.request()));
    let expected = vec![
        "fixed".to_string(),
        "lookups".to_string(),
        "advice".to_string(),
        "advice".to_string(),
        "advice".to_string(),
        "advice".to_string(),
        "binary 0".to_string(),
        "integer 0 100 u32 2".to_string(),
        "integer 0 100 address 10".to_string(),
        "rlc 0 100 32 27".to_string(),
        "integer 0 100 u32 2".to_string(),
        "order [6, 7, 8, 9] 101 102 3 103 104 100".to_string(),
        "gate state circuit constraints 0 5".to_string(),
        format!("lookup first {:?} {:?}", cell(30), cell(31)),
        format!("lookup second {:?} {:?}", cell(32), cell(33)),
        "done".to_string(),
    ];
    assert_eq!(log, expected);
    // Nothing is asked for any more.
    assert!(!steps.answer(Answer::LookupAny));
    assert!(!steps.answer(Answer::Chip(1)));
    assert_eq!(describe(&steps.request()), "done");
}

#[test]
fn the_configuration_is_made_of_the_answers() {
    let mut steps = Steps::new(3);
    for (i, answer) in answers(vec![]).into_iter().enumerate() {
        assert_eq!(steps.config().is_some(), i >= 12);
        assert!(steps.answer(answer));
    }
    assert_eq!(describe(&steps.request()), "done");
    let config = steps.config().unwrap();
    assert_eq!(config.selector.index, 0);
    assert_eq!(config.is_write.index, 2);
    assert_eq!(config.sort_keys.field_tag.index, 3);
    assert_eq!(config.value.index, 4);
    assert_eq!(config.initial_value.index, 5);
    assert_eq!(config.sort_keys.tag.bits.map(|c| c.index), [6, 7, 8, 9]);
    assert_eq!(config.sort_keys.id, 101);
    assert_eq!(config.sort_keys.address, 102);
    assert_eq!(config.sort_keys.storage_key, 103);
    assert_eq!(config.sort_keys.rw_counter, 104);
    assert_eq!(config.lexicographic_ordering.chip, 105);
    assert_eq!(config.lexicographic_ordering.selector.index, 1);
    assert_eq!(config.lookups, 100);
    assert_eq!(config.power_of_randomness.len(), 31);
    assert_eq!(constant(&config.power_of_randomness[3]), 81);
    assert_eq!(format!("{:?}", config.clone()), format!("{:?}", config));
}

#[test]
fn the_light_circuit_asks_for_the_same() {
    let mut full = Steps::new(3);
    let mut light = Configuration::<Pallas, u32, true>::new(3);
    let lookups = || vec![Lookup { name: "first", input: cell(30), table: cell(31) }];
    for (a, b) in answers(lookups()).into_iter().zip(answers(lookups())) {
        assert_eq!(format!("{:?}", full.request()), format!("{:?}", light.request()));
        assert!(full.answer(a));
        assert!(light.answer(b));
    }
    assert_eq!(format!("{:?}", full.request()), format!("{:?}", light.request()));
    assert_eq!(
        format!("{:?}", full.config().unwrap()),
        format!("{:?}", light.config().unwrap())
    );
}

#[test]
fn no_instance_column_is_asked_for() {
    let mut steps = Steps::new(3);
    let mut columns = 0;
    for answer in answers(vec![]) {
        match steps.request() {
            Request::FixedColumn | Request::AdviceColumn => columns += 1,
            _ => {}
        }
        assert!(steps.answer(answer));
    }
    // One fixed column and four advice columns are all that is asked for.
    assert_eq!(columns, 5);
    assert_eq!(StateCircuit::<Pallas, 4>::default().instance().len(), 0);
}

#[test]
fn answers_to_other_requests_are_not_taken() {
    let mut steps = Steps::new(3);
    assert!(!steps.answer(Answer::Chip(1)));
    assert!(!steps.answer(Answer::AdviceColumn(advice(0))));
    assert!(!steps.answer(Answer::BinaryNumber(BinaryNumberConfig { bits: [0; 4].map(advice) })));
    assert!(!steps.answer(Answer::LexicographicOrder(ordering())));
    assert!(!steps.answer(Answer::Gate(vec![])));
    assert!(!steps.answer(Answer::LookupAny));
    assert_eq!(describe(&steps.request()), "fixed");
    assert!(steps.answer(Answer::FixedColumn(fixed(0))));
    assert!(!steps.answer(Answer::FixedColumn(fixed(0))));
    assert_eq!(describe(&steps.request()), "lookups");
}

#[test]
fn the_powers_of_the_randomness() {
    let powers = power_of_randomness::<Pallas>(10);
    assert_eq!(powers.len(), 31);
    for (i, power) in powers.iter().enumerate() {
        match power {
            Expression::Constant(c) if i < 30 => {
                assert_eq!(c.to_halves(), (10u128.pow(i as u32 + 1), 0))
            }
            Expression::Constant(c) => assert_eq!(c.to_halves(), (10u128.pow(31), 0)),
            _ => panic!("not a constant"),
        }
    }
    let wide = power_of_randomness::<Pallas>(1 << 127);
    match (&wide[0], &wide[1]) {
        (Expression::Constant(first), Expression::Constant(second)) => {
            assert_eq!(first.to_halves(), (1 << 127, 0));
            assert_eq!(second.to_halves(), (0, 1 << 126));
        }
        _ => panic!("not constants"),
    }
}
