use metaheuristc_pso::leitura::{instancia_de_numeros, ler_decimal, ler_numeros};
use metaheuristc_pso::problema::ProblemaEnsopado;
use metaheuristc_pso::problema::LIMITE_SOMA;

#[test]
fn whole_numbers_are_read_in_units() {
    assert_eq!(ler_decimal(b"0"), Some(0));
    assert_eq!(ler_decimal(b"7"), Some(700_000));
    assert_eq!(ler_decimal(b"25"), Some(2_500_000));
    assert_eq!(ler_decimal(b"007"), Some(700_000));
    assert_eq!(ler_decimal(b"12."), Some(1_200_000));
}

#[test]
fn fractions_are_read_to_five_places() {
    assert_eq!(ler_decimal(b"0.5"), Some(50_000));
    assert_eq!(ler_decimal(b"3.14159"), Some(314_159));
    assert_eq!(ler_decimal(b"3.141599"), Some(314_159));
    assert_eq!(ler_decimal(b"0.00001"), Some(1));
    assert_eq!(ler_decimal(b"0.000009"), Some(0));
    assert_eq!(ler_decimal(b"10.25"), Some(1_025_000));
}

#[test]
fn malformed_numbers_are_refused() {
    assert_eq!(ler_decimal(b""), None);
    assert_eq!(ler_decimal(b"."), None);
    assert_eq!(ler_decimal(b".5"), None);
    assert_eq!(ler_decimal(b"-1"), None);
    assert_eq!(ler_decimal(b"1e3"), None);
    assert_eq!(ler_decimal(b"1.2.3"), None);
    assert_eq!(ler_decimal(b"1,5"), None);
    assert_eq!(ler_decimal(b"1.5x"), None);
    assert_eq!(ler_decimal(b"x1"), None);
}

#[test]
fn numbers_beyond_the_limit_are_refused() {
    assert_eq!(ler_decimal(b"10000000000"), Some(LIMITE_SOMA));
    assert_eq!(ler_decimal(b"10000000000.00000"), Some(LIMITE_SOMA));
    assert_eq!(ler_decimal(b"10000000000.00001"), None);
    assert_eq!(ler_decimal(b"10000000001"), None);
    assert_eq!(ler_decimal(b"99999999999999999999999999"), None);
    assert_eq!(ler_decimal(b"9999999999.99999"), Some(LIMITE_SOMA - 1));
}

#[test]
fn numbers_are_cut_at_spaces_and_bad_pieces_dropped() {
    assert_eq!(ler_numeros(b"3 1 4"), vec![300_000, 100_000, 400_000]);
    assert_eq!(ler_numeros(b"  10\t20.5\r\n  5 \n"), vec![1_000_000, 2_050_000, 500_000]);
    assert_eq!(ler_numeros(b"1 abc 2 -3 4."), vec![100_000, 200_000, 400_000]);
    assert_eq!(ler_numeros(b""), Vec::<u64>::new());
    assert_eq!(ler_numeros(b" \n "), Vec::<u64>::new());
    assert_eq!(ler_numeros(b"7"), vec![700_000]);
}

#[test]
fn instance_is_read_from_its_numbers() {
    let e = 100_000u64;
    let nums = vec![3 * e, e, 4 * e, 10 * e, 20 * e, 5 * e, 2 * e, 3 * e, e, e, 2 * e];
    let p = instancia_de_numeros(&nums).unwrap();
    assert_eq!(p.ingredientes.len(), 3);
    assert_eq!(p.ingredientes[0].sabor, 10 * e);
    assert_eq!(p.ingredientes[2].sabor, 5 * e);
    assert_eq!(p.ingredientes[0].peso, 2 * e);
    assert_eq!(p.ingredientes[2].peso, e);
    assert_eq!(p.pares_incompativeis, vec![(0, 1)]);
    assert_eq!(p.peso_max, 4 * e);
    let mut sobra = nums.clone();
    sobra.push(9 * e);
    assert!(instancia_de_numeros(&sobra).is_some());
}

#[test]
fn instance_with_missing_or_bad_numbers_is_refused() {
    let e = 100_000u64;
    assert!(instancia_de_numeros(&vec![]).is_none());
    assert!(instancia_de_numeros(&vec![3 * e, e]).is_none());
    assert!(instancia_de_numeros(&vec![3 * e, 0, 4 * e, e, e, e, e, e]).is_none());
    assert!(instancia_de_numeros(&vec![e, e, 4 * e, e, e, e]).is_none());
    assert!(instancia_de_numeros(&vec![e, e, 4 * e, e, e, e, 2 * e]).is_none());
    assert!(instancia_de_numeros(&vec![e, e, 4 * e, e, e, 0, e]).is_none());
    assert!(instancia_de_numeros(&vec![e, e, 4 * e, e, e, e, e]).is_some());
    assert!(instancia_de_numeros(&vec![0, 0, 0]).is_some());
    assert!(instancia_de_numeros(&vec![u64::MAX, u64::MAX, 0]).is_none());
}

#[test]
fn instance_is_read_from_text() {
    let p = ProblemaEnsopado::load_from(b"3 1 4\n\n10 20 5\n\n2 3 1\n\n1 2\n").unwrap();
    assert!(p.valido());
    assert_eq!(p.ingredientes.len(), 3);
    assert_eq!(p.ingredientes[1].sabor, 2_000_000);
    assert_eq!(p.ingredientes[1].peso, 300_000);
    assert_eq!(p.pares_incompativeis, vec![(0, 1)]);
    assert_eq!(p.peso_max, 400_000);
    assert!(ProblemaEnsopado::load_from(b"3 1 4\n10 20\n").is_none());
    assert!(ProblemaEnsopado::load_from(b"").is_none());
}
