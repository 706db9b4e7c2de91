use calculadora::mensagens::monta_linha_resultado;
use calculadora::menu::{obter_simbolo_operacao, Operacao};
use calculadora::sessao::{executar_sessao, Evento};

fn roteiro(linhas: &[&str]) -> Vec<String> {
    linhas.iter().map(|l| l.to_string()).collect()
}

#[test]
fn soma_e_saida_produzem_o_resultado_e_a_despedida() {
    // Entrada "1\n3\n4\n7\n": soma de 3 e 4, depois sair.
    let eventos = executar_sessao(&roteiro(&["1", "3", "4", "7"]));
    assert_eq!(
        eventos,
        vec![
            Evento::Binaria { operacao: Operacao::Soma, primeiro: 1, segundo: 2 },
            Evento::Despedida,
        ]
    );
    // A linha de resultado que a interface monta a partir do evento.
    let a: f64 = "3".trim().parse().unwrap();
    let b: f64 = "4".trim().parse().unwrap();
    let simbolo = obter_simbolo_operacao(Operacao::Soma.nome());
    let linha = monta_linha_resultado(
        &a.to_string(),
        simbolo,
        &b.to_string(),
        &format!("{:.2}", a + b),
    );
    assert_eq!(linha, "Resultado: 3 + 4 = 7.00");
}

#[test]
fn divisao_por_zero_mostra_o_aviso_e_zero() {
    // Entrada "4\n10\n0\n7\n": divisão de 10 por 0, depois sair.
    let eventos = executar_sessao(&roteiro(&["4", "10", "0", "7"]));
    assert_eq!(
        eventos,
        vec![
            Evento::Binaria { operacao: Operacao::Divisao, primeiro: 1, segundo: 2 },
            Evento::Despedida,
        ]
    );
    let a: f64 = "10".parse().unwrap();
    let b: f64 = "0".parse().unwrap();
    let (resultado, avisos) = if b != 0.0 { (a / b, 0) } else { (0.0, 1) };
    assert_eq!(avisos, 1);
    let simbolo = obter_simbolo_operacao(Operacao::Divisao.nome());
    let linha = monta_linha_resultado(
        &a.to_string(),
        simbolo,
        &b.to_string(),
        &format!("{:.2}", resultado),
    );
    assert_eq!(linha, "Resultado: 10 ÷ 0 = 0.00");
}

#[test]
fn escolha_invalida_avisa_uma_vez_e_nao_consome_operandos() {
    // Entrada "9\n7\n": escolha fora do menu, depois sair.
    let eventos = executar_sessao(&roteiro(&["9", "7"]));
    assert_eq!(eventos, vec![Evento::EscolhaInvalida, Evento::Despedida]);
    let avisos = eventos.iter().filter(|e| **e == Evento::EscolhaInvalida).count();
    assert_eq!(avisos, 1);
}

#[test]
fn raiz_quadrada_consome_um_so_operando() {
    let eventos = executar_sessao(&roteiro(&["6", "16", "7"]));
    assert_eq!(
        eventos,
        vec![
            Evento::Unaria { operacao: Operacao::RaizQuadrada, operando: 1 },
            Evento::Despedida,
        ]
    );
}

#[test]
fn operando_malformado_repete_a_leitura() {
    let eventos = executar_sessao(&roteiro(&["1", "x", "", "3", "4", "7"]));
    assert_eq!(
        eventos,
        vec![
            Evento::Binaria { operacao: Operacao::Soma, primeiro: 3, segundo: 4 },
            Evento::Despedida,
        ]
    );
}

#[test]
fn escolha_malformada_vale_zero_e_e_invalida() {
    let eventos = executar_sessao(&roteiro(&["abc", "7"]));
    assert_eq!(eventos, vec![Evento::EscolhaInvalida, Evento::Despedida]);
}

#[test]
fn fim_da_entrada_encerra_sem_despedida() {
    let eventos = executar_sessao(&roteiro(&["1", "3"]));
    assert_eq!(eventos, vec![]);
    let eventos = executar_sessao(&roteiro(&[]));
    assert_eq!(eventos, vec![]);
    let eventos = executar_sessao(&roteiro(&["2", "1", "2"]));
    assert_eq!(
        eventos,
        vec![Evento::Binaria { operacao: Operacao::Subtracao, primeiro: 1, segundo: 2 }]
    );
}

#[test]
fn varias_operacoes_na_mesma_sessao() {
    let eventos = executar_sessao(&roteiro(&["3", "2.5", "4", "5", "2", "10", "7"]));
    assert_eq!(
        eventos,
        vec![
            Evento::Binaria { operacao: Operacao::Multiplicacao, primeiro: 1, segundo: 2 },
            Evento::Binaria { operacao: Operacao::Potenciacao, primeiro: 4, segundo: 5 },
            Evento::Despedida,
        ]
    );
}
