//! Motor verificado de uma calculadora interativa: o despacho do menu, a
//! validação de entrada numérica, a máquina de estados da sessão e os textos
//! da interface, junto com as funções utilitárias de inteiros, textos e
//! fatias que acompanham o projeto. A aritmética de ponto flutuante e a
//! entrada/saída ficam na casca interativa, fora da biblioteca.

pub mod funcoes;
pub mod leitura;
pub mod mensagens;
pub mod menu;
pub mod sessao;
pub mod textos;
pub mod usuarios;
