use ic_circuit::engine::{Operand, OperandEnv, SynthesisError, operand_dispatch};
use ic_circuit::field::fe_from_u64;
use ic_circuit::registry::Registry;
use ic_circuit::schema::{Algo, AlgoItem, ChainItem, OperandRef};

fn cell(v: u64) -> Operand {
    Operand::Cell(Some(fe_from_u64(v)))
}

fn fetch_item(operand: &str) -> AlgoItem {
    AlgoItem {
        name: String::new(),
        desc: String::new(),
        operator: String::new(),
        operand1: OperandRef { name: operand.to_string(), tag: "Cell".to_string() },
        operand2: None,
    }
}

fn named_fetch_item(name: &str, operand: &str) -> AlgoItem {
    AlgoItem {
        name: name.to_string(),
        desc: String::new(),
        operator: String::new(),
        operand1: OperandRef { name: operand.to_string(), tag: "Cell".to_string() },
        operand2: None,
    }
}

#[test]
fn chain_folds_left_over_field_wires() {
    let reg = Registry::new();
    let mut env = OperandEnv::new();
    env.set("a", cell(5));
    env.set("b", cell(7));
    env.set("c", cell(9));

    let algo = Algo {
        name: "constraint".to_string(),
        desc: String::new(),
        items: vec![
            ChainItem { chain_op: String::new(), item: fetch_item("a") },
            ChainItem { chain_op: "add".to_string(), item: named_fetch_item("t1", "b") },
            ChainItem { chain_op: "add".to_string(), item: named_fetch_item("t2", "c") },
        ],
    };

    let out = algo.compute(&reg, &mut env).unwrap();
    match out {
        Operand::Cell(Some(f)) => assert_eq!(f, fe_from_u64(21)),
        other => panic!("expected a wire result, got {:?}", other),
    }
    // The running results were materialized under the step names.
    match env.get(&"t1".to_string()).unwrap() {
        Operand::Cell(Some(f)) => assert_eq!(f, fe_from_u64(12)),
        other => panic!("expected a wire under t1, got {:?}", other),
    }
}

#[test]
fn chain_with_two_operand_step_combines_accumulator() {
    // a, then (b mul c) as a step: acc = a + (b * c).
    let reg = Registry::new();
    let mut env = OperandEnv::new();
    env.set("a", cell(10));
    env.set("b", cell(3));
    env.set("c", cell(4));

    let mul_item = AlgoItem {
        name: "prod".to_string(),
        desc: String::new(),
        operator: "mul".to_string(),
        operand1: OperandRef { name: "b".to_string(), tag: "Cell".to_string() },
        operand2: Some(OperandRef { name: "c".to_string(), tag: "Cell".to_string() }),
    };
    let algo = Algo {
        name: "constraint".to_string(),
        desc: String::new(),
        items: vec![
            ChainItem { chain_op: String::new(), item: fetch_item("a") },
            ChainItem { chain_op: "add".to_string(), item: mul_item },
        ],
    };

    let out = algo.compute(&reg, &mut env).unwrap();
    match out {
        Operand::Cell(Some(f)) => assert_eq!(f, fe_from_u64(22)),
        other => panic!("expected a wire result, got {:?}", other),
    }
}

#[test]
fn dispatch_adds_wires() {
    let reg = Registry::new();
    let r = operand_dispatch(
        &reg,
        &"add".to_string(),
        &"Cell".to_string(),
        &cell(5),
        &"Cell".to_string(),
        &cell(7),
    )
    .unwrap();
    match r {
        Operand::Field(Some(f)) => assert_eq!(f, fe_from_u64(12)),
        other => panic!("expected a field result, got {:?}", other),
    }
}

#[test]
fn dispatch_multiplies_wires() {
    let reg = Registry::new();
    let r = operand_dispatch(
        &reg,
        &"mul".to_string(),
        &"Cell".to_string(),
        &cell(6),
        &"Cell".to_string(),
        &cell(7),
    )
    .unwrap();
    match r {
        Operand::Field(Some(f)) => assert_eq!(f, fe_from_u64(42)),
        other => panic!("expected a field result, got {:?}", other),
    }
}

#[test]
fn dispatch_propagates_unknowns() {
    let reg = Registry::new();
    let r = operand_dispatch(
        &reg,
        &"add".to_string(),
        &"Cell".to_string(),
        &Operand::Cell(None),
        &"Cell".to_string(),
        &cell(7),
    )
    .unwrap();
    match r {
        Operand::Field(None) => {},
        other => panic!("expected an unknown field result, got {:?}", other),
    }
}

#[test]
fn dispatch_rejects_unknown_operator() {
    let reg = Registry::new();
    let r = operand_dispatch(
        &reg,
        &"div".to_string(),
        &"Cell".to_string(),
        &cell(5),
        &"Cell".to_string(),
        &cell(7),
    );
    assert!(matches!(r, Err(SynthesisError::Synthesis)));
}

#[test]
fn dispatch_rejects_tag_mismatch() {
    let reg = Registry::new();
    // A Poseidon step over a point tag is a configuration error.
    let r = operand_dispatch(
        &reg,
        &"poseidon".to_string(),
        &"Point".to_string(),
        &Operand::Point(None),
        &"Cell".to_string(),
        &cell(7),
    );
    assert!(matches!(r, Err(SynthesisError::Synthesis)));

    // Adding a scalar to a wire is a configuration error too.
    let r2 = operand_dispatch(
        &reg,
        &"add".to_string(),
        &"Scalar".to_string(),
        &Operand::Scalar(None),
        &"Cell".to_string(),
        &cell(7),
    );
    assert!(matches!(r2, Err(SynthesisError::Synthesis)));
}

#[test]
fn dispatch_poseidon_matches_primitive() {
    let reg = Registry::new();
    let r = operand_dispatch(
        &reg,
        &"poseidon".to_string(),
        &"Cell".to_string(),
        &cell(11),
        &"Cell".to_string(),
        &cell(13),
    )
    .unwrap();
    let expect = halo2_gadgets::poseidon::primitives::Hash::<
        pasta_curves::Fp,
        halo2_gadgets::poseidon::primitives::P128Pow5T3,
        halo2_gadgets::poseidon::primitives::ConstantLength<2>,
        3,
        2,
    >::init()
    .hash([pasta_curves::Fp::from(11u64), pasta_curves::Fp::from(13u64)]);
    match r {
        Operand::Cell(Some(f)) => {
            assert_eq!(f.to_bytes().as_slice(), ff::PrimeField::to_repr(&expect).as_slice());
        },
        other => panic!("expected a wire result, got {:?}", other),
    }
}

#[test]
fn missing_operand_is_synthesis_error() {
    let reg = Registry::new();
    let mut env = OperandEnv::new();
    env.set("a", cell(1));
    let algo = Algo {
        name: "constraint".to_string(),
        desc: String::new(),
        items: vec![
            ChainItem { chain_op: String::new(), item: fetch_item("a") },
            ChainItem { chain_op: "add".to_string(), item: named_fetch_item("t", "missing") },
        ],
    };
    assert!(matches!(algo.compute(&reg, &mut env), Err(SynthesisError::Synthesis)));
}
