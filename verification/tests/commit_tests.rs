use ic_circuit::bits::{bits_is_zero, bits_value_u128, pad_bits, u128_to_bits};
use ic_circuit::commit::{
    CommitInput, CommitResult, canon_bitshift_130, canon_offset_for, check_if_same_pieces,
    compose_slices, compute_commit_value, decompose_bits, extract_piece_name, is_slice_name,
    y_decompose,
};
use ic_circuit::field::{
    Fe, NonIdentityPallasPoint, T_P, T_Q, fe_from_bytes, fe_from_u128, fe_from_u64, sc_from_u64,
};
use ic_circuit::commit::{
    CommitTrapdoor, Commitment, canon_bitshift_pair, gate_assignments, gate_slice_rules,
    witness_y_input,
};
use ic_circuit::gates::CellValues;
use ic_circuit::schema::{CellConfig, GateInfo};
use ic_circuit::value::ValueType;

fn fe_bits_le(f: &Fe) -> Vec<bool> {
    let bytes = f.to_bytes();
    let mut bits = Vec::new();
    for i in 0..255 {
        bits.push((bytes[i / 8] >> (i % 8)) & 1 == 1);
    }
    bits
}

fn direct_short_commit(domain: &str, values: &[Fe], r: u64) -> pasta_curves::Fp {
    let mut msg: Vec<bool> = Vec::new();
    for v in values {
        msg.extend(fe_bits_le(v));
    }
    let d = halo2_gadgets::sinsemilla::primitives::CommitDomain::new(domain);
    let fr = pasta_curves::Fq::from(r);
    let out: Option<pasta_curves::Fp> = d.short_commit(msg.into_iter(), &fr).into();
    out.unwrap()
}

fn two_pow_254_minus_1() -> Fe {
    let mut bytes = vec![0xffu8; 32];
    bytes[31] = 0x3f;
    fe_from_bytes(&bytes).unwrap()
}

#[test]
fn short_commit_matches_direct_computation() {
    // Boundary inputs, committed one at a time over one domain and blinding.
    let domain = "ShortCommitDomain";
    let r = sc_from_u64(7);
    let boundary: Vec<Fe> = vec![
        fe_from_u64(0),
        fe_from_u64(1),
        fe_from_u128(T_Q - 1),
        fe_from_u128(T_Q),
        fe_from_u128(1u128 << 127),
        two_pow_254_minus_1(),
    ];
    for v in boundary {
        let inputs = vec![CommitInput {
            name: "input1".to_string(),
            width: 255,
            x: v.clone(),
            y: None,
        }];
        let got = compute_commit_value(true, domain, &r, &inputs);
        let expect = direct_short_commit(domain, &[v], 7);
        match got {
            CommitResult::X(Some(f)) => {
                assert_eq!(f.to_bytes().as_slice(), ff::PrimeField::to_repr(&expect).as_slice());
            },
            other => panic!("expected an x-only result, got {:?}", other),
        }
    }
}

#[test]
fn full_commit_matches_direct_computation() {
    let domain = "FullCommitDomain";
    let r = sc_from_u64(11);
    let a = fe_from_u64(77);
    let b = fe_from_u128(T_P);
    let inputs = vec![
        CommitInput { name: "a".to_string(), width: 255, x: a.clone(), y: None },
        CommitInput { name: "b".to_string(), width: 255, x: b.clone(), y: None },
    ];
    let got = compute_commit_value(false, domain, &r, &inputs);

    let mut msg: Vec<bool> = Vec::new();
    msg.extend(fe_bits_le(&a));
    msg.extend(fe_bits_le(&b));
    let d = halo2_gadgets::sinsemilla::primitives::CommitDomain::new(domain);
    let expect: Option<pasta_curves::Ep> =
        d.commit(msg.into_iter(), &pasta_curves::Fq::from(11u64)).into();
    let expect_bytes = group::GroupEncoding::to_bytes(&expect.unwrap());
    match got {
        CommitResult::Point(Some(p)) => {
            assert_eq!(p.to_bytes().as_slice(), expect_bytes.as_slice());
        },
        other => panic!("expected a point result, got {:?}", other),
    }
}

#[test]
fn commit_message_honors_widths_and_y_parity() {
    // A 10-bit input and a y-carrying input: the message is the 10 low bits
    // of the first value, then 255 bits of the second, then the y parity.
    let domain = "WidthDomain";
    let r = sc_from_u64(3);
    let v1 = fe_from_u64(0b1100110101);
    let v2 = fe_from_u64(99);
    let y = fe_from_u64(21);  // odd parity
    let inputs = vec![
        CommitInput { name: "short".to_string(), width: 10, x: v1.clone(), y: None },
        CommitInput { name: "point".to_string(), width: 255, x: v2.clone(), y: Some(y) },
    ];
    let got = compute_commit_value(true, domain, &r, &inputs);

    let mut msg: Vec<bool> = Vec::new();
    msg.extend(fe_bits_le(&v1)[..10].iter().copied());
    msg.extend(fe_bits_le(&v2));
    msg.push(true);
    let d = halo2_gadgets::sinsemilla::primitives::CommitDomain::new(domain);
    let expect: Option<pasta_curves::Fp> =
        d.short_commit(msg.into_iter(), &pasta_curves::Fq::from(3u64)).into();
    let expect = expect.unwrap();
    match got {
        CommitResult::X(Some(f)) => {
            assert_eq!(f.to_bytes().as_slice(), ff::PrimeField::to_repr(&expect).as_slice());
        },
        other => panic!("expected an x-only result, got {:?}", other),
    }
}

#[test]
fn compose_decompose_round_trip() {
    let slices = vec![
        vec![true, false, true],
        vec![false],
        vec![true, true, false, false, true],
    ];
    let piece = compose_slices(&slices);
    assert_eq!(piece.len(), 9);
    let widths = vec![3usize, 1, 5];
    let back = decompose_bits(&piece, &widths).unwrap();
    assert_eq!(back, slices);
}

#[test]
fn decompose_rejects_wrong_widths() {
    let piece = vec![true, false, true, true];
    assert!(decompose_bits(&piece, &vec![2usize, 1]).is_none());
    assert!(decompose_bits(&piece, &vec![2usize, 3]).is_none());
}

#[test]
fn canonicity_running_sum_vanishes_iff_canonical() {
    // Just below the modulus tail: canonical, the final running sum is zero.
    let low = u128_to_bits(T_P - 1, 128);
    let a = pad_bits(&low, 250);
    let (_prime, z13) = canon_bitshift_130(&a);
    assert!(bits_is_zero(&z13));

    // At the tail: out of range, the final running sum is not zero.
    let low2 = u128_to_bits(T_P, 128);
    let b = pad_bits(&low2, 250);
    let (_prime2, z13b) = canon_bitshift_130(&b);
    assert!(!bits_is_zero(&z13b));
}

#[test]
fn piece_names_and_canonicity_offsets() {
    assert_eq!(extract_piece_name(&"b_1".to_string()), "b".to_string());
    assert_eq!(extract_piece_name(&"input".to_string()), "input".to_string());
    assert!(is_slice_name(&"d_0".to_string()));
    assert!(!is_slice_name(&"d".to_string()));
    assert!(check_if_same_pieces(&vec!["b_0".to_string(), "b_1".to_string()]));
    assert!(!check_if_same_pieces(&vec!["b_2".to_string(), "c".to_string()]));
    assert_eq!(canon_offset_for(&"b_0".to_string(), &"b_1".to_string()), 130);
    assert_eq!(canon_offset_for(&"b_2".to_string(), &"c".to_string()), 140);
}

#[test]
fn y_decomposition_recombines() {
    let y = fe_from_u128((1u128 << 100) + 0b1011);
    let parts = y_decompose(&y);
    assert!(parts.lsb);
    assert!(!parts.k3);
    assert_eq!(parts.k0.len(), 9);
    assert_eq!(parts.k1.len(), 240);
    assert_eq!(parts.k2.len(), 4);
    let k0 = bits_value_u128(&parts.k0);
    assert_eq!(k0, 0b101);
    // j recombines the low 250 bits.
    let j = bits_value_u128(&pad_bits(&parts.j, 250)[..128].to_vec());
    assert_eq!(j, (1u128 << 100) + 0b1011);
}

#[test]
fn gate_slice_rules_demand_gapless_widths() {
    let cells = vec![
        CellConfig {
            name: "b".to_string(),
            attr: String::new(),
            celltype: "Piece".to_string(),
            coltype: "Advice".to_string(),
            col: 0,
            row: "Cur".to_string(),
            width: 10,
        },
        CellConfig {
            name: "b_0".to_string(),
            attr: String::new(),
            celltype: "Slice".to_string(),
            coltype: "Advice".to_string(),
            col: 1,
            row: "Cur".to_string(),
            width: 4,
        },
        CellConfig {
            name: "b_1".to_string(),
            attr: String::new(),
            celltype: "TopSlice".to_string(),
            coltype: "Advice".to_string(),
            col: 0,
            row: "Next".to_string(),
            width: 1,
        },
        CellConfig {
            name: "b_2".to_string(),
            attr: String::new(),
            celltype: "Slice".to_string(),
            coltype: "Advice".to_string(),
            col: 1,
            row: "Next".to_string(),
            width: 5,
        },
    ];
    let gate = GateInfo::from_config(&"gate b".to_string(), &cells).unwrap();
    assert_eq!(gate.name, "gate b".to_string());
    assert_eq!(gate.cells.len(), 4);
    assert!(gate.cells[0].attr.is_none());

    let rules = gate_slice_rules(&gate).unwrap();
    assert_eq!(rules.len(), 3);
    assert_eq!(rules[0].offset, 0);
    assert_eq!(rules[1].offset, 4);
    assert_eq!(rules[2].offset, 5);
    assert_eq!(rules[2].host, "b".to_string());

    // A width short of the head's width is refused.
    let mut bad = cells.clone();
    bad[3].width = 4;
    let gate2 = GateInfo::from_config(&"gate b".to_string(), &bad).unwrap();
    assert!(gate_slice_rules(&gate2).is_err());

    // An unknown type name is refused at parse time.
    let mut unknown = cells.clone();
    unknown[1].celltype = "Sliced".to_string();
    assert!(GateInfo::from_config(&"gate b".to_string(), &unknown).is_none());
}

#[test]
fn derived_commitment_matches_direct_computation() {

    let chunk: Vec<u8> = (0u8..32).collect();
    let value = ValueType(-5);
    let coord = fe_from_u64(1234);
    let rcm = CommitTrapdoor(sc_from_u64(9));
    let got = Commitment::derive(
        "DeriveDomain",
        &vec![chunk.clone()],
        &vec![value],
        &vec![coord.clone()],
        &rcm,
    )
    .unwrap();

    let mut msg: Vec<bool> = Vec::new();
    for i in 0..256 {
        msg.push((chunk[i / 8] >> (i % 8)) & 1 == 1);
    }
    let twos = (-5i64) as u64;
    for i in 0..64 {
        msg.push((twos >> i) & 1 == 1);
    }
    let repr = ff::PrimeField::to_repr(&pasta_curves::Fp::from(1234u64));
    for i in 0..255 {
        msg.push((repr[i / 8] >> (i % 8)) & 1 == 1);
    }
    let d = halo2_gadgets::sinsemilla::primitives::CommitDomain::new("DeriveDomain");
    let expect: Option<pasta_curves::Ep> =
        d.commit(msg.into_iter(), &pasta_curves::Fq::from(9u64)).into();
    let expect_bytes = group::GroupEncoding::to_bytes(&expect.unwrap());
    assert_eq!(got.value().to_bytes().as_slice(), expect_bytes.as_slice());
}

#[test]
fn y_input_witness_matches_curve_point() {
    // Take a real point, feed its x and its y parity, and expect it back.
    let p = halo2_gadgets::sinsemilla::primitives::CommitDomain::new("YDomain").R();
    let affine = group::Curve::to_affine(&p);
    let coords = pasta_curves::arithmetic::CurveAffine::coordinates(&affine).unwrap();
    let x = ic_circuit::field::fe_from_bytes(&ff::PrimeField::to_repr(coords.x()).to_vec())
        .unwrap();
    let y = ic_circuit::field::fe_from_bytes(&ff::PrimeField::to_repr(coords.y()).to_vec())
        .unwrap();
    let got = witness_y_input(&x, &y).unwrap();
    assert_eq!(
        got.to_bytes().as_slice(),
        group::GroupEncoding::to_bytes(&p).as_slice(),
    );
}

#[test]
fn non_identity_points_reject_the_identity_encoding() {
    assert!(NonIdentityPallasPoint::from_bytes(&vec![0u8; 32]).is_none());
    let p = halo2_gadgets::sinsemilla::primitives::CommitDomain::new("NIDomain").R();
    let enc = group::GroupEncoding::to_bytes(&p).to_vec();
    let ni = NonIdentityPallasPoint::from_bytes(&enc).unwrap();
    assert_eq!(ni.value().to_bytes().as_slice(), enc.as_slice());
}

#[test]
fn canonicity_pair_running_sum_at_wider_offset() {
    // Two slices from different hosts are checked at the 140-bit offset;
    // the fourteen-step running sum vanishes exactly on canonical values.
    let a0 = u128_to_bits(1, 5);
    let below = u128_to_bits((T_P - 32) >> 5, 123);
    let b_low = pad_bits(&below, 230);
    let (_p1, z14) = canon_bitshift_pair(140, &a0, &b_low);
    assert!(bits_is_zero(&z14));

    let at = u128_to_bits(T_P >> 5, 123);
    let b_high = pad_bits(&at, 230);
    let (_p2, z14b) = canon_bitshift_pair(140, &a0, &b_high);
    assert!(!bits_is_zero(&z14b));
}

#[test]
fn piece_gates_recompose_their_slices() {
    let cells = vec![
        CellConfig {
            name: "b".to_string(),
            attr: String::new(),
            celltype: "Piece".to_string(),
            coltype: "Advice".to_string(),
            col: 0,
            row: "Cur".to_string(),
            width: 10,
        },
        CellConfig {
            name: "b_0".to_string(),
            attr: String::new(),
            celltype: "Slice".to_string(),
            coltype: "Advice".to_string(),
            col: 1,
            row: "Cur".to_string(),
            width: 4,
        },
        CellConfig {
            name: "b_1".to_string(),
            attr: String::new(),
            celltype: "TopSlice".to_string(),
            coltype: "Advice".to_string(),
            col: 0,
            row: "Next".to_string(),
            width: 1,
        },
        CellConfig {
            name: "b_2".to_string(),
            attr: String::new(),
            celltype: "Slice".to_string(),
            coltype: "Advice".to_string(),
            col: 1,
            row: "Next".to_string(),
            width: 5,
        },
    ];
    let gate = GateInfo::from_config(&"gate b".to_string(), &cells).unwrap();
    let mut values = CellValues::new();
    values.set("b_0", fe_from_u64(5));
    values.set("b_1", fe_from_u64(1));
    values.set("b_2", fe_from_u64(19));
    let assigns = gate_assignments(&gate, &values).unwrap();
    assert_eq!(assigns.len(), 4);
    assert_eq!(assigns[0].cell, "b".to_string());
    // b = b_0 + 2^4 b_1 + 2^5 b_2 = 5 + 16 + 608.
    assert_eq!(assigns[0].value, fe_from_u64(629));
    assert_eq!(assigns[1].cell, "b_0".to_string());
    assert_eq!(assigns[3].cell, "b_2".to_string());
    assert_eq!(assigns[3].value, fe_from_u64(19));

    // A missing slice is caught at composition time.
    let mut partial = CellValues::new();
    partial.set("b_0", fe_from_u64(5));
    assert!(gate_assignments(&gate, &partial).is_err());
}
