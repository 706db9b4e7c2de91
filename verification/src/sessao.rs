//! A sessão interativa da calculadora como máquina de estados sobre um
//! roteiro de linhas de entrada: cada volta mostra o menu, lê uma escolha e,
//! conforme o destino, consome as linhas de operando (repetindo a leitura
//! sobre linhas malformadas), registra um evento e segue, até a escolha de
//! saída ou o fim da entrada. O fim da entrada encerra a sessão limpamente,
//! sem despedida. O cálculo em si, de ponto flutuante, fica fora: cada
//! evento aponta as linhas de operando aceitas para quem o executa.

use crate::leitura::{
    buscar_linha_valida, escolha_da_linha, lema_linha_valida_cotas, ler_escolha_de,
    primeira_linha_valida,
};
use crate::menu::{despachar, destino_da_escolha, Destino, Operacao};
use vstd::prelude::*;

verus! {

/// O que uma volta da sessão produz: uma operação executada com os índices
/// das linhas de operando aceitas, um aviso de escolha inválida, ou a
/// despedida que encerra.
#[derive(Clone, Copy, PartialEq, Eq, Structural, Debug)]
pub enum Evento {
    Binaria { operacao: Operacao, primeiro: usize, segundo: usize },
    Unaria { operacao: Operacao, operando: usize },
    EscolhaInvalida,
    Despedida,
}

/// Os eventos que a sessão produz sobre o roteiro a partir da linha `pos`:
/// a escolha de saída despede e encerra, uma escolha inválida avisa e volta
/// ao menu sem consumir operandos, e uma operação consome as linhas até os
/// seus operandos bem formados; se o roteiro acaba antes, a sessão termina
/// sem mais eventos.
pub open spec fn eventos_da_sessao(linhas: Seq<Seq<char>>, pos: int) -> Seq<Evento>
    decreases linhas.len() - pos,
        via lema_sessao_decresce
{
    if pos < 0 || pos >= linhas.len() {
        Seq::empty()
    } else {
        match destino_da_escolha(escolha_da_linha(linhas[pos])) {
            Destino::Sair => seq![Evento::Despedida],
            Destino::Invalida => seq![Evento::EscolhaInvalida] + eventos_da_sessao(
                linhas,
                pos + 1,
            ),
            Destino::Executar(op) => {
                let primeiro = primeira_linha_valida(linhas, pos + 1);
                if op.spec_binaria() {
                    if primeiro >= linhas.len() {
                        Seq::empty()
                    } else {
                        let segundo = primeira_linha_valida(linhas, primeiro + 1);
                        if segundo >= linhas.len() {
                            Seq::empty()
                        } else {
                            seq![
                                Evento::Binaria {
                                    operacao: op,
                                    primeiro: primeiro as usize,
                                    segundo: segundo as usize,
                                },
                            ] + eventos_da_sessao(linhas, segundo + 1)
                        }
                    }
                } else {
                    if primeiro >= linhas.len() {
                        Seq::empty()
                    } else {
                        seq![Evento::Unaria { operacao: op, operando: primeiro as usize }]
                            + eventos_da_sessao(linhas, primeiro + 1)
                    }
                }
            },
        }
    }
}

#[via_fn]
proof fn lema_sessao_decresce(linhas: Seq<Seq<char>>, pos: int) {
    if 0 <= pos < linhas.len() {
        lema_linha_valida_cotas(linhas, pos + 1);
        let primeiro = primeira_linha_valida(linhas, pos + 1);
        if primeiro < linhas.len() {
            lema_linha_valida_cotas(linhas, primeiro + 1);
        }
    }
}

/// Uma escolha fora do menu só avisa: a sessão segue para a linha seguinte
/// sem consumir linha alguma de operando.
pub proof fn lema_escolha_invalida(linhas: Seq<Seq<char>>, pos: int)
    requires
        0 <= pos < linhas.len(),
        destino_da_escolha(escolha_da_linha(linhas[pos])) == Destino::Invalida,
    ensures
        eventos_da_sessao(linhas, pos) == seq![Evento::EscolhaInvalida] + eventos_da_sessao(
            linhas,
            pos + 1,
        ),
{
}

/// A escolha de saída despede-se e encerra: nenhum evento vem depois.
pub proof fn lema_escolha_de_saida(linhas: Seq<Seq<char>>, pos: int)
    requires
        0 <= pos < linhas.len(),
        destino_da_escolha(escolha_da_linha(linhas[pos])) == Destino::Sair,
    ensures
        eventos_da_sessao(linhas, pos) == seq![Evento::Despedida],
{
}

/// Um evento respeita a aridade da sua operação, e os operandos de uma
/// operação binária vêm de linhas em ordem: o primeiro antes do segundo.
pub open spec fn evento_bem_formado(evento: Evento) -> bool {
    match evento {
        Evento::Binaria { operacao, primeiro, segundo } => operacao.spec_binaria() && primeiro
            < segundo,
        Evento::Unaria { operacao, operando: _ } => !operacao.spec_binaria(),
        Evento::EscolhaInvalida => true,
        Evento::Despedida => true,
    }
}

/// Toda sessão só produz eventos bem formados: cada operação aparece com a
/// sua aridade, e os operandos vêm na ordem do roteiro.
pub proof fn lema_sessao_bem_formada(linhas: Seq<Seq<char>>, pos: int)
    requires
        linhas.len() <= usize::MAX,
    ensures
        forall|i: int|
            0 <= i < eventos_da_sessao(linhas, pos).len() ==> evento_bem_formado(
                #[trigger] eventos_da_sessao(linhas, pos)[i],
            ),
    decreases linhas.len() - pos,
{
    if 0 <= pos < linhas.len() {
        let eventos = eventos_da_sessao(linhas, pos);
        match destino_da_escolha(escolha_da_linha(linhas[pos])) {
            Destino::Sair => {},
            Destino::Invalida => {
                lema_sessao_bem_formada(linhas, pos + 1);
                let resto = eventos_da_sessao(linhas, pos + 1);
                assert forall|i: int| 0 <= i < eventos.len() implies evento_bem_formado(
                    #[trigger] eventos[i],
                ) by {
                    if i > 0 {
                        assert(eventos[i] == resto[i - 1]);
                    }
                }
            },
            Destino::Executar(op) => {
                lema_linha_valida_cotas(linhas, pos + 1);
                let primeiro = primeira_linha_valida(linhas, pos + 1);
                if op.spec_binaria() {
                    if primeiro < linhas.len() {
                        lema_linha_valida_cotas(linhas, primeiro + 1);
                        let segundo = primeira_linha_valida(linhas, primeiro + 1);
                        if segundo < linhas.len() {
                            lema_sessao_bem_formada(linhas, segundo + 1);
                            let resto = eventos_da_sessao(linhas, segundo + 1);
                            assert forall|i: int| 0 <= i < eventos.len() implies evento_bem_formado(
                                #[trigger] eventos[i],
                            ) by {
                                if i > 0 {
                                    assert(eventos[i] == resto[i - 1]);
                                }
                            }
                        }
                    }
                } else {
                    if primeiro < linhas.len() {
                        lema_sessao_bem_formada(linhas, primeiro + 1);
                        let resto = eventos_da_sessao(linhas, primeiro + 1);
                        assert forall|i: int| 0 <= i < eventos.len() implies evento_bem_formado(
                            #[trigger] eventos[i],
                        ) by {
                            if i > 0 {
                                assert(eventos[i] == resto[i - 1]);
                            }
                        }
                    }
                }
            },
        }
    }
}

/// A despedida, quando acontece, é o último evento da sessão: depois da
/// escolha de sair nada mais é lido nem executado.
pub proof fn lema_despedida_encerra(linhas: Seq<Seq<char>>, pos: int)
    ensures
        forall|i: int|
            0 <= i < eventos_da_sessao(linhas, pos).len() && #[trigger] eventos_da_sessao(
                linhas,
                pos,
            )[i] == Evento::Despedida ==> i == eventos_da_sessao(linhas, pos).len() - 1,
    decreases linhas.len() - pos,
{
    if 0 <= pos < linhas.len() {
        let eventos = eventos_da_sessao(linhas, pos);
        match destino_da_escolha(escolha_da_linha(linhas[pos])) {
            Destino::Sair => {},
            Destino::Invalida => {
                lema_despedida_encerra(linhas, pos + 1);
                let resto = eventos_da_sessao(linhas, pos + 1);
                assert forall|i: int|
                    0 <= i < eventos.len() && #[trigger] eventos[i]
                        == Evento::Despedida implies i == eventos.len() - 1 by {
                    if i > 0 {
                        assert(eventos[i] == resto[i - 1]);
                    }
                }
            },
            Destino::Executar(op) => {
                lema_linha_valida_cotas(linhas, pos + 1);
                let primeiro = primeira_linha_valida(linhas, pos + 1);
                if op.spec_binaria() {
                    if primeiro < linhas.len() {
                        lema_linha_valida_cotas(linhas, primeiro + 1);
                        let segundo = primeira_linha_valida(linhas, primeiro + 1);
                        if segundo < linhas.len() {
                            lema_despedida_encerra(linhas, segundo + 1);
                            let resto = eventos_da_sessao(linhas, segundo + 1);
                            assert forall|i: int|
                                0 <= i < eventos.len() && #[trigger] eventos[i]
                                    == Evento::Despedida implies i == eventos.len() - 1 by {
                                if i > 0 {
                                    assert(eventos[i] == resto[i - 1]);
                                }
                            }
                        }
                    }
                } else {
                    if primeiro < linhas.len() {
                        lema_despedida_encerra(linhas, primeiro + 1);
                        let resto = eventos_da_sessao(linhas, primeiro + 1);
                        assert forall|i: int|
                            0 <= i < eventos.len() && #[trigger] eventos[i]
                                == Evento::Despedida implies i == eventos.len() - 1 by {
                            if i > 0 {
                                assert(eventos[i] == resto[i - 1]);
                            }
                        }
                    }
                }
            },
        }
    }
}

/// Percorre um roteiro de linhas de entrada como a sessão interativa o
/// faria e devolve os eventos produzidos, na ordem.
pub fn executar_sessao(linhas: &Vec<String>) -> (eventos: Vec<Evento>)
    ensures
        eventos@ == eventos_da_sessao(linhas.deep_view(), 0),
{
    let ghost roteiro = linhas.deep_view();
    let tamanho = linhas.len();
    proof {
        assert(roteiro.len() == tamanho);
    }
    let mut eventos: Vec<Evento> = Vec::new();
    let mut pos: usize = 0;
    while pos < tamanho
        invariant
            roteiro == linhas.deep_view(),
            roteiro.len() == tamanho,
            tamanho == linhas@.len(),
            pos <= tamanho,
            eventos_da_sessao(roteiro, 0) == eventos@ + eventos_da_sessao(roteiro, pos as int),
        decreases tamanho - pos,
    {
        proof {
            assert(roteiro[pos as int] == linhas@[pos as int]@);
        }
        let ghost antes = eventos@;
        let escolha = ler_escolha_de(linhas[pos].as_str());
        match despachar(escolha) {
            Destino::Sair => {
                eventos.push(Evento::Despedida);
                proof {
                    assert(eventos@ =~= antes + eventos_da_sessao(roteiro, pos as int));
                }
                return eventos;
            },
            Destino::Invalida => {
                eventos.push(Evento::EscolhaInvalida);
                pos += 1;
                proof {
                    assert(antes + (seq![Evento::EscolhaInvalida] + eventos_da_sessao(
                        roteiro,
                        pos as int,
                    )) =~= eventos@ + eventos_da_sessao(roteiro, pos as int));
                }
            },
            Destino::Executar(op) => {
                let primeiro = buscar_linha_valida(linhas, pos + 1);
                if op.eh_binaria() {
                    if primeiro == tamanho {
                        proof {
                            assert(eventos_da_sessao(roteiro, pos as int) =~= Seq::empty());
                            assert(eventos@ =~= antes + Seq::empty());
                        }
                        return eventos;
                    }
                    let segundo = buscar_linha_valida(linhas, primeiro + 1);
                    if segundo == tamanho {
                        proof {
                            assert(eventos_da_sessao(roteiro, pos as int) =~= Seq::empty());
                            assert(eventos@ =~= antes + Seq::empty());
                        }
                        return eventos;
                    }
                    let evento = Evento::Binaria { operacao: op, primeiro, segundo };
                    eventos.push(evento);
                    pos = segundo + 1;
                    proof {
                        assert(antes + (seq![evento] + eventos_da_sessao(roteiro, pos as int))
                            =~= eventos@ + eventos_da_sessao(roteiro, pos as int));
                    }
                } else {
                    if primeiro == tamanho {
                        proof {
                            assert(eventos_da_sessao(roteiro, pos as int) =~= Seq::empty());
                            assert(eventos@ =~= antes + Seq::empty());
                        }
                        return eventos;
                    }
                    let evento = Evento::Unaria { operacao: op, operando: primeiro };
                    eventos.push(evento);
                    pos = primeiro + 1;
                    proof {
                        assert(antes + (seq![evento] + eventos_da_sessao(roteiro, pos as int))
                            =~= eventos@ + eventos_da_sessao(roteiro, pos as int));
                    }
                }
            },
        }
    }
    proof {
        assert(eventos_da_sessao(roteiro, pos as int) =~= Seq::empty());
        assert(eventos@ =~= eventos@ + Seq::empty());
    }
    eventos
}

} // verus!
