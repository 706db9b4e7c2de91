use calculadora::funcoes::{
    aplicar_operacao, dobrar_valor, elevar_ao_quadrado, fatorial, fibonacci, operacoes, plus_one,
    somar, somar_slice, verificar_par, _primeiro_elemento,
};

#[test]
fn test_somar() {
    assert_eq!(somar(2, 3), 5);
    assert_eq!(somar(-1, 1), 0);
    assert_eq!(somar(0, 0), 0);
}

#[test]
fn elevar_ao_quadrado_casos() {
    assert_eq!(elevar_ao_quadrado(4), 16);
    assert_eq!(elevar_ao_quadrado(-3), 9);
    assert_eq!(elevar_ao_quadrado(0), 0);
}

#[test]
fn operacoes_soma_e_produto() {
    assert_eq!(operacoes(6, 7), (13, 42));
    assert_eq!(operacoes(-2, 5), (3, -10));
}

#[test]
fn fatorial_casos() {
    assert_eq!(fatorial(0), 1);
    assert_eq!(fatorial(1), 1);
    assert_eq!(fatorial(5), 120);
    assert_eq!(fatorial(12), 479001600);
}

#[test]
fn fibonacci_casos() {
    assert_eq!(fibonacci(0), 0);
    assert_eq!(fibonacci(1), 1);
    assert_eq!(fibonacci(10), 55);
    assert_eq!(fibonacci(20), 6765);
}

#[test]
fn verificar_par_casos() {
    assert!(verificar_par(8));
    assert!(!verificar_par(7));
    assert!(verificar_par(0));
    assert!(verificar_par(-4));
    assert!(!verificar_par(-9));
}

#[test]
fn dobrar_valor_em_lugar() {
    let mut valor = 21;
    dobrar_valor(&mut valor);
    assert_eq!(valor, 42);
    let mut negativo = -8;
    dobrar_valor(&mut negativo);
    assert_eq!(negativo, -16);
}

#[test]
fn primeiro_elemento_casos() {
    let cheio = [10, 20, 30];
    assert_eq!(_primeiro_elemento(&cheio), Some(&10));
    let vazio: [i32; 0] = [];
    assert_eq!(_primeiro_elemento(&vazio), None);
}

#[test]
fn aplicar_operacao_com_fechos() {
    assert_eq!(aplicar_operacao(5, 3, |a, b| a + b), 8);
    assert_eq!(aplicar_operacao(5, 3, |a, b| a * b), 15);
}

#[test]
fn plus_one_casos() {
    assert_eq!(plus_one(Some(5)), 6);
    assert_eq!(plus_one(None), 0);
    assert_eq!(plus_one(Some(-1)), 0);
}

#[test]
fn somar_slice_casos() {
    assert_eq!(somar_slice(&[1, 2, 3, 4, 5]), 15);
    assert_eq!(somar_slice(&[]), 0);
    assert_eq!(somar_slice(&[-3, 3, 7]), 7);
}
