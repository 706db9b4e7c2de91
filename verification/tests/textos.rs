use calculadora::textos::{
    abrir_arquivo, calcula_tamanho, encontrar_palavra, extrair_palavras, modifica_string,
    primeira_palavra, retornar_referencia, textos_iguais,
};
use calculadora::usuarios::build_user;

#[test]
fn textos_iguais_casos() {
    assert!(textos_iguais("hello", "hello"));
    assert!(!textos_iguais("hello", "Hello"));
    assert!(!textos_iguais("hello", "hello "));
    assert!(textos_iguais("", ""));
    assert!(textos_iguais("ação", "ação"));
}

#[test]
fn calcula_tamanho_conta_bytes() {
    assert_eq!(calcula_tamanho(&String::from("hello")), 5);
    assert_eq!(calcula_tamanho(&String::from("")), 0);
    assert_eq!(calcula_tamanho(&String::from("divisão")), 8);
}

#[test]
fn modifica_string_acrescenta_o_complemento() {
    let mut s = String::from("hello");
    modifica_string(&mut s);
    assert_eq!(s, "hello, world!");
}

#[test]
fn retornar_referencia_da_o_comeco() {
    assert_eq!(retornar_referencia("lifetime"), "lif");
    assert_eq!(retornar_referencia("abc"), "abc");
}

#[test]
fn primeira_palavra_casos() {
    assert_eq!(primeira_palavra("hello world"), "hello");
    assert_eq!(primeira_palavra("semespacos"), "semespacos");
    assert_eq!(primeira_palavra(" comeca com espaco"), "");
    assert_eq!(primeira_palavra(""), "");
}

#[test]
fn extrair_palavras_separa_e_pula_vazios() {
    assert_eq!(
        extrair_palavras("Rust é uma linguagem incrível"),
        vec!["Rust", "é", "uma", "linguagem", "incrível"]
    );
    assert_eq!(extrair_palavras("a  b"), vec!["a", "b"]);
    assert_eq!(extrair_palavras("  "), Vec::<&str>::new());
    assert_eq!(extrair_palavras("fim "), vec!["fim"]);
    assert_eq!(extrair_palavras(""), Vec::<&str>::new());
}

#[test]
fn encontrar_palavra_da_o_primeiro_indice() {
    assert_eq!(encontrar_palavra("programacao em Rust", "Rust"), Some(15));
    assert_eq!(encontrar_palavra("abcabc", "bc"), Some(1));
    assert_eq!(encontrar_palavra("abc", "xyz"), None);
    assert_eq!(encontrar_palavra("abc", "abcd"), None);
    assert_eq!(encontrar_palavra("abc", ""), Some(0));
}

#[test]
fn abrir_arquivo_casos() {
    assert_eq!(
        abrir_arquivo("notas.txt"),
        Ok(String::from("Conteúdo do arquivo notas.txt"))
    );
    assert_eq!(
        abrir_arquivo(""),
        Err(String::from("Nome do arquivo não pode ser vazio"))
    );
}

#[test]
fn build_user_ativa_e_conta_uma_entrada() {
    let usuario = build_user(String::from("bob@example.com"), String::from("bob"));
    assert_eq!(usuario.email, "bob@example.com");
    assert_eq!(usuario.username, "bob");
    assert!(usuario.active);
    assert_eq!(usuario.sign_in_count, 1);
}
