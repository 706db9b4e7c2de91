use calculadora::mensagens::{
    aviso_escolha_invalida, despedida, linhas_do_menu, monta_cabecalho, monta_linha_raiz,
    monta_linha_resultado, pedido_de_escolha, saudacao,
};
use calculadora::menu::{despachar, obter_simbolo_operacao, Destino, Operacao};

#[test]
fn cada_escolha_do_menu_leva_a_um_so_destino() {
    assert_eq!(despachar(1), Destino::Executar(Operacao::Soma));
    assert_eq!(despachar(2), Destino::Executar(Operacao::Subtracao));
    assert_eq!(despachar(3), Destino::Executar(Operacao::Multiplicacao));
    assert_eq!(despachar(4), Destino::Executar(Operacao::Divisao));
    assert_eq!(despachar(5), Destino::Executar(Operacao::Potenciacao));
    assert_eq!(despachar(6), Destino::Executar(Operacao::RaizQuadrada));
    assert_eq!(despachar(7), Destino::Sair);
    assert_eq!(despachar(0), Destino::Invalida);
    assert_eq!(despachar(8), Destino::Invalida);
    assert_eq!(despachar(9), Destino::Invalida);
    assert_eq!(despachar(u32::MAX), Destino::Invalida);
}

#[test]
fn aridade_das_operacoes() {
    assert!(Operacao::Soma.eh_binaria());
    assert!(Operacao::Subtracao.eh_binaria());
    assert!(Operacao::Multiplicacao.eh_binaria());
    assert!(Operacao::Divisao.eh_binaria());
    assert!(Operacao::Potenciacao.eh_binaria());
    assert!(!Operacao::RaizQuadrada.eh_binaria());
}

#[test]
fn nomes_das_operacoes() {
    assert_eq!(Operacao::Soma.nome(), "soma");
    assert_eq!(Operacao::Subtracao.nome(), "subtração");
    assert_eq!(Operacao::Multiplicacao.nome(), "multiplicação");
    assert_eq!(Operacao::Divisao.nome(), "divisão");
    assert_eq!(Operacao::Potenciacao.nome(), "potenciação");
    assert_eq!(Operacao::RaizQuadrada.nome(), "raiz quadrada");
}

#[test]
fn simbolo_de_cada_nome_de_operacao() {
    assert_eq!(obter_simbolo_operacao("soma"), "+");
    assert_eq!(obter_simbolo_operacao("subtração"), "-");
    assert_eq!(obter_simbolo_operacao("multiplicação"), "×");
    assert_eq!(obter_simbolo_operacao("divisão"), "÷");
    assert_eq!(obter_simbolo_operacao("potenciação"), "^");
    assert_eq!(obter_simbolo_operacao("raiz quadrada"), "?");
    assert_eq!(obter_simbolo_operacao("desconhecida"), "?");
}

#[test]
fn nome_maiusculo_e_o_nome_em_caixa_alta() {
    let operacoes = [
        Operacao::Soma,
        Operacao::Subtracao,
        Operacao::Multiplicacao,
        Operacao::Divisao,
        Operacao::Potenciacao,
        Operacao::RaizQuadrada,
    ];
    for op in operacoes {
        assert_eq!(op.nome_maiusculo(), op.nome().to_uppercase());
    }
}

#[test]
fn linhas_de_resultado_montadas() {
    assert_eq!(
        monta_linha_resultado("3", "+", "4", "7.00"),
        "Resultado: 3 + 4 = 7.00"
    );
    assert_eq!(
        monta_linha_resultado("10", "÷", "0", "0.00"),
        "Resultado: 10 ÷ 0 = 0.00"
    );
    assert_eq!(monta_linha_raiz("16", "4.00"), "√16 = 4.00");
    assert_eq!(monta_cabecalho("SOMA"), "=== SOMA ===");
}

#[test]
fn textos_da_interface() {
    let boas_vindas = saudacao();
    assert_eq!(boas_vindas, vec!["=== Calculadora Rust ===",
        "Bem-vindo à calculadora desenvolvida em Rust!"]);
    let menu = linhas_do_menu();
    assert_eq!(menu.len(), 8);
    assert_eq!(menu[0], "Escolha uma operação:");
    assert_eq!(menu[1], "1. Soma");
    assert_eq!(menu[7], "7. Sair");
    assert_eq!(pedido_de_escolha(), "Digite sua escolha (1-7): ");
    assert_eq!(aviso_escolha_invalida(), "Opção inválida! Tente novamente.");
    assert_eq!(despedida(), "Obrigado por usar a calculadora!");
}
