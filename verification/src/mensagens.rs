//! Os textos fixos da interface interativa: a saudação, o menu, os pedidos
//! de número e os avisos. Quem imprime é quem chama; aqui ficam apenas os
//! textos, cada um com o seu contrato.

use vstd::prelude::*;

verus! {

/// As duas linhas de boas-vindas impressas na partida.
pub fn saudacao() -> (linhas: Vec<&'static str>)
    ensures
        linhas@.len() == 2,
        linhas@[0]@ == "=== Calculadora Rust ==="@,
        linhas@[1]@ == "Bem-vindo à calculadora desenvolvida em Rust!"@,
{
    let mut linhas: Vec<&'static str> = Vec::new();
    linhas.push("=== Calculadora Rust ===");
    linhas.push("Bem-vindo à calculadora desenvolvida em Rust!");
    linhas
}

/// As oito linhas do menu, impressas a cada volta da sessão.
pub fn linhas_do_menu() -> (linhas: Vec<&'static str>)
    ensures
        linhas@.len() == 8,
        linhas@[0]@ == "Escolha uma operação:"@,
        linhas@[1]@ == "1. Soma"@,
        linhas@[2]@ == "2. Subtração"@,
        linhas@[3]@ == "3. Multiplicação"@,
        linhas@[4]@ == "4. Divisão"@,
        linhas@[5]@ == "5. Potenciação"@,
        linhas@[6]@ == "6. Raiz Quadrada"@,
        linhas@[7]@ == "7. Sair"@,
{
    let mut linhas: Vec<&'static str> = Vec::new();
    linhas.push("Escolha uma operação:");
    linhas.push("1. Soma");
    linhas.push("2. Subtração");
    linhas.push("3. Multiplicação");
    linhas.push("4. Divisão");
    linhas.push("5. Potenciação");
    linhas.push("6. Raiz Quadrada");
    linhas.push("7. Sair");
    linhas
}

/// O pedido de escolha, impresso sem quebra de linha após o menu.
pub fn pedido_de_escolha() -> (texto: &'static str)
    ensures
        texto@ == "Digite sua escolha (1-7): "@,
{
    "Digite sua escolha (1-7): "
}

/// O aviso dado a uma escolha fora do menu.
pub fn aviso_escolha_invalida() -> (texto: &'static str)
    ensures
        texto@ == "Opção inválida! Tente novamente."@,
{
    "Opção inválida! Tente novamente."
}

/// A despedida da escolha de saída.
pub fn despedida() -> (texto: &'static str)
    ensures
        texto@ == "Obrigado por usar a calculadora!"@,
{
    "Obrigado por usar a calculadora!"
}

/// O pedido repetido enquanto a linha lida não é um número.
pub fn pedido_numero_valido() -> (texto: &'static str)
    ensures
        texto@ == "Por favor, digite um número válido:"@,
{
    "Por favor, digite um número válido:"
}

/// O pedido do primeiro operando de uma operação binária.
pub fn pedido_primeiro_numero() -> (texto: &'static str)
    ensures
        texto@ == "Digite o primeiro número:"@,
{
    "Digite o primeiro número:"
}

/// O pedido do segundo operando de uma operação binária.
pub fn pedido_segundo_numero() -> (texto: &'static str)
    ensures
        texto@ == "Digite o segundo número:"@,
{
    "Digite o segundo número:"
}

/// O pedido do operando de uma operação unária.
pub fn pedido_numero() -> (texto: &'static str)
    ensures
        texto@ == "Digite o número:"@,
{
    "Digite o número:"
}

/// A linha de resultado de uma operação binária, com os operandos e o
/// resultado já escritos por quem chama.
pub fn monta_linha_resultado(a: &str, simbolo: &str, b: &str, resultado: &str) -> (linha: String)
    ensures
        linha@ == "Resultado: "@ + a@ + " "@ + simbolo@ + " "@ + b@ + " = "@ + resultado@,
{
    let mut linha = "Resultado: ".to_owned();
    linha.append(a);
    linha.append(" ");
    linha.append(simbolo);
    linha.append(" ");
    linha.append(b);
    linha.append(" = ");
    linha.append(resultado);
    linha
}

/// A linha de resultado da raiz quadrada.
pub fn monta_linha_raiz(x: &str, resultado: &str) -> (linha: String)
    ensures
        linha@ == "√"@ + x@ + " = "@ + resultado@,
{
    let mut linha = "√".to_owned();
    linha.append(x);
    linha.append(" = ");
    linha.append(resultado);
    linha
}

/// O cabeçalho impresso ao entrar numa operação.
pub fn monta_cabecalho(nome_maiusculo: &str) -> (linha: String)
    ensures
        linha@ == "=== "@ + nome_maiusculo@ + " ==="@,
{
    let mut linha = "=== ".to_owned();
    linha.append(nome_maiusculo);
    linha.append(" ===");
    linha
}

} // verus!
