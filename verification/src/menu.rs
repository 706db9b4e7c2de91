//! O menu da calculadora: as seis operações nomeadas, o destino de cada
//! escolha numérica e o símbolo usado ao exibir um resultado.

use vstd::prelude::*;

verus! {

/// Uma das seis operações aritméticas que o menu oferece.
#[derive(Clone, Copy, PartialEq, Eq, Structural, Debug)]
pub enum Operacao {
    Soma,
    Subtracao,
    Multiplicacao,
    Divisao,
    Potenciacao,
    RaizQuadrada,
}

/// Para onde uma escolha do menu leva: executar uma operação, encerrar a
/// sessão, ou nenhum dos dois.
#[derive(Clone, Copy, PartialEq, Eq, Structural, Debug)]
pub enum Destino {
    Executar(Operacao),
    Sair,
    Invalida,
}

impl Operacao {
    /// O nome da operação, como aparece no cabeçalho impresso.
    pub open spec fn spec_nome(self) -> Seq<char> {
        match self {
            Operacao::Soma => "soma"@,
            Operacao::Subtracao => "subtração"@,
            Operacao::Multiplicacao => "multiplicação"@,
            Operacao::Divisao => "divisão"@,
            Operacao::Potenciacao => "potenciação"@,
            Operacao::RaizQuadrada => "raiz quadrada"@,
        }
    }

    pub fn nome(self) -> (r: &'static str)
        ensures
            r@ == self.spec_nome(),
    {
        match self {
            Operacao::Soma => "soma",
            Operacao::Subtracao => "subtração",
            Operacao::Multiplicacao => "multiplicação",
            Operacao::Divisao => "divisão",
            Operacao::Potenciacao => "potenciação",
            Operacao::RaizQuadrada => "raiz quadrada",
        }
    }

    /// O nome da operação em maiúsculas, como aparece no cabeçalho.
    pub open spec fn spec_nome_maiusculo(self) -> Seq<char> {
        match self {
            Operacao::Soma => "SOMA"@,
            Operacao::Subtracao => "SUBTRAÇÃO"@,
            Operacao::Multiplicacao => "MULTIPLICAÇÃO"@,
            Operacao::Divisao => "DIVISÃO"@,
            Operacao::Potenciacao => "POTENCIAÇÃO"@,
            Operacao::RaizQuadrada => "RAIZ QUADRADA"@,
        }
    }

    pub fn nome_maiusculo(self) -> (r: &'static str)
        ensures
            r@ == self.spec_nome_maiusculo(),
    {
        match self {
            Operacao::Soma => "SOMA",
            Operacao::Subtracao => "SUBTRAÇÃO",
            Operacao::Multiplicacao => "MULTIPLICAÇÃO",
            Operacao::Divisao => "DIVISÃO",
            Operacao::Potenciacao => "POTENCIAÇÃO",
            Operacao::RaizQuadrada => "RAIZ QUADRADA",
        }
    }

    /// Uma operação binária pede dois operandos; a raiz quadrada, um só.
    pub open spec fn spec_binaria(self) -> bool {
        self != Operacao::RaizQuadrada
    }

    pub fn eh_binaria(self) -> (r: bool)
        ensures
            r == self.spec_binaria(),
    {
        match self {
            Operacao::RaizQuadrada => false,
            _ => true,
        }
    }
}

/// O mapeamento fixo do menu: 1 a 6 escolhem uma operação, 7 encerra, e
/// qualquer outro valor é inválido.
pub open spec fn destino_da_escolha(escolha: u32) -> Destino {
    if escolha == 1 {
        Destino::Executar(Operacao::Soma)
    } else if escolha == 2 {
        Destino::Executar(Operacao::Subtracao)
    } else if escolha == 3 {
        Destino::Executar(Operacao::Multiplicacao)
    } else if escolha == 4 {
        Destino::Executar(Operacao::Divisao)
    } else if escolha == 5 {
        Destino::Executar(Operacao::Potenciacao)
    } else if escolha == 6 {
        Destino::Executar(Operacao::RaizQuadrada)
    } else if escolha == 7 {
        Destino::Sair
    } else {
        Destino::Invalida
    }
}

/// O símbolo com que o nome de uma operação binária aparece na linha de
/// resultado; um nome desconhecido recebe o marcador "?".
pub open spec fn simbolo_do_nome(nome: Seq<char>) -> Seq<char> {
    if nome == "soma"@ {
        "+"@
    } else if nome == "subtração"@ {
        "-"@
    } else if nome == "multiplicação"@ {
        "×"@
    } else if nome == "divisão"@ {
        "÷"@
    } else if nome == "potenciação"@ {
        "^"@
    } else {
        "?"@
    }
}

pub fn obter_simbolo_operacao(operacao: &str) -> (simbolo: &str)
    ensures
        simbolo@ == simbolo_do_nome(operacao@),
{
    if crate::textos::textos_iguais(operacao, "soma") {
        "+"
    } else if crate::textos::textos_iguais(operacao, "subtração") {
        "-"
    } else if crate::textos::textos_iguais(operacao, "multiplicação") {
        "×"
    } else if crate::textos::textos_iguais(operacao, "divisão") {
        "÷"
    } else if crate::textos::textos_iguais(operacao, "potenciação") {
        "^"
    } else {
        "?"
    }
}

pub fn despachar(escolha: u32) -> (destino: Destino)
    ensures
        destino == destino_da_escolha(escolha),
{
    match escolha {
        1 => Destino::Executar(Operacao::Soma),
        2 => Destino::Executar(Operacao::Subtracao),
        3 => Destino::Executar(Operacao::Multiplicacao),
        4 => Destino::Executar(Operacao::Divisao),
        5 => Destino::Executar(Operacao::Potenciacao),
        6 => Destino::Executar(Operacao::RaizQuadrada),
        7 => Destino::Sair,
        _ => Destino::Invalida,
    }
}

/// Escolhas distintas entre 1 e 6 levam a operações distintas: o menu não
/// repete operação alguma.
pub proof fn lema_destinos_distintos(escolha_a: u32, escolha_b: u32)
    requires
        1 <= escolha_a <= 6,
        1 <= escolha_b <= 6,
        escolha_a != escolha_b,
    ensures
        destino_da_escolha(escolha_a) != destino_da_escolha(escolha_b),
{
}

} // verus!
