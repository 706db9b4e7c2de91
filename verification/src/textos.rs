//! Funções sobre textos e fatias: comparação de textos, a primeira palavra,
//! a extração de palavras, a busca de uma palavra, e pequenas utilidades de
//! referência e tamanho.

use vstd::prelude::*;
use vstd::string::StringSliceAdditionalSpecFns;

verus! {

/// Compara dois textos caractere a caractere.
pub fn textos_iguais(a: &str, b: &str) -> (iguais: bool)
    ensures
        iguais == (a@ == b@),
{
    let tamanho_a = a.unicode_len();
    let tamanho_b = b.unicode_len();
    if tamanho_a != tamanho_b {
        return false;
    }
    let mut i: usize = 0;
    while i < tamanho_a
        invariant
            tamanho_a == a@.len(),
            tamanho_a == b@.len(),
            i <= tamanho_a,
            forall|j: int| 0 <= j < i ==> a@[j] == b@[j],
        decreases tamanho_a - i,
    {
        if a.get_char(i) != b.get_char(i) {
            return false;
        }
        i += 1;
    }
    proof {
        assert(a@ =~= b@);
    }
    true
}

/// Quantos bytes a codificação UTF-8 de um texto ocupa.
pub open spec fn tamanho_em_bytes(s: Seq<char>) -> nat {
    vstd::utf8::encode_utf8(s).len()
}

/// O tamanho de um texto em bytes, sem tomar posse dele.
pub fn calcula_tamanho(s: &String) -> (tamanho: usize)
    ensures
        tamanho == tamanho_em_bytes(s@) as usize,
{
    let texto = s.as_str();
    let tamanho = texto.len();
    proof {
        assert(texto.spec_bytes() == vstd::utf8::encode_utf8(texto@));
    }
    tamanho
}

/// Acrescenta um complemento fixo ao fim do texto recebido.
pub fn modifica_string(s: &mut String)
    ensures
        final(s)@ == old(s)@ + ", world!"@,
{
    s.append(", world!");
}

/// Devolve uma referência aos três primeiros caracteres do texto.
pub fn retornar_referencia(s: &str) -> (r: &str)
    requires
        s@.len() >= 3,
    ensures
        r@ == s@.subrange(0, 3),
{
    s.substring_char(0, 3)
}

/// O índice do primeiro espaço a partir de `i`, ou o fim do texto.
pub open spec fn primeiro_espaco(s: Seq<char>, i: int) -> int
    decreases s.len() - i,
{
    if i < 0 || i >= s.len() {
        s.len() as int
    } else if s[i] == ' ' {
        i
    } else {
        primeiro_espaco(s, i + 1)
    }
}

proof fn lema_primeiro_espaco_cotas(s: Seq<char>, i: int)
    requires
        0 <= i <= s.len(),
    ensures
        i <= primeiro_espaco(s, i) <= s.len(),
    decreases s.len() - i,
{
    if i < s.len() && s[i] != ' ' {
        lema_primeiro_espaco_cotas(s, i + 1);
    }
}

proof fn lema_primeiro_espaco_avanca(s: Seq<char>, de: int, i: int)
    requires
        0 <= de <= i <= s.len(),
        forall|k: int| de <= k < i ==> s[k] != ' ',
    ensures
        primeiro_espaco(s, de) == primeiro_espaco(s, i),
    decreases i - de,
{
    if de < i {
        lema_primeiro_espaco_avanca(s, de + 1, i);
    }
}

/// O trecho do texto até o primeiro espaço, ou o texto inteiro quando não
/// há espaço algum.
pub fn primeira_palavra(s: &str) -> (palavra: &str)
    ensures
        palavra@ == s@.subrange(0, primeiro_espaco(s@, 0)),
{
    let tamanho = s.unicode_len();
    let mut i: usize = 0;
    while i < tamanho && s.get_char(i) != ' '
        invariant
            tamanho == s@.len(),
            i <= tamanho,
            forall|k: int| 0 <= k < i ==> s@[k] != ' ',
        decreases tamanho - i,
    {
        i += 1;
    }
    proof {
        lema_primeiro_espaco_avanca(s@, 0, i as int);
    }
    s.substring_char(0, i)
}

/// A palavra ocorre no texto a partir do índice `i`.
pub open spec fn ocorre_em(texto: Seq<char>, palavra: Seq<char>, i: int) -> bool {
    0 <= i && i + palavra.len() <= texto.len() && texto.subrange(i, i + palavra.len()) == palavra
}

fn casa_em(texto: &str, palavra: &str, i: usize) -> (r: bool)
    requires
        i + palavra@.len() <= texto@.len(),
        texto@.len() <= usize::MAX,
    ensures
        r == ocorre_em(texto@, palavra@, i as int),
{
    let tamanho = palavra.unicode_len();
    let mut k: usize = 0;
    while k < tamanho
        invariant
            tamanho == palavra@.len(),
            i + tamanho <= texto@.len(),
            texto@.len() <= usize::MAX,
            k <= tamanho,
            forall|j: int| 0 <= j < k ==> texto@[i + j] == palavra@[j],
        decreases tamanho - k,
    {
        if texto.get_char(i + k) != palavra.get_char(k) {
            proof {
                let indice = k as int;
                assert(texto@.subrange(i as int, i + palavra@.len())[indice] != palavra@[indice]);
            }
            return false;
        }
        k += 1;
    }
    proof {
        assert(texto@.subrange(i as int, i + palavra@.len()) =~= palavra@);
    }
    true
}

/// O índice da primeira ocorrência da palavra no texto, se ela ocorre.
pub fn encontrar_palavra(texto: &str, palavra: &str) -> (r: Option<usize>)
    ensures
        r matches Some(i) ==> ocorre_em(texto@, palavra@, i as int) && (forall|j: int|
            0 <= j < i ==> !ocorre_em(texto@, palavra@, j)),
        r is None ==> forall|j: int| !ocorre_em(texto@, palavra@, j),
{
    let tamanho_texto = texto.unicode_len();
    let tamanho_palavra = palavra.unicode_len();
    if tamanho_palavra > tamanho_texto {
        return None;
    }
    if tamanho_palavra == 0 {
        proof {
            assert(texto@.subrange(0, 0) =~= palavra@);
        }
        return Some(0);
    }
    let limite = tamanho_texto - tamanho_palavra;
    let mut i: usize = 0;
    while i <= limite
        invariant
            tamanho_texto == texto@.len(),
            tamanho_palavra == palavra@.len(),
            tamanho_palavra >= 1,
            limite == tamanho_texto - tamanho_palavra,
            i <= limite + 1,
            forall|j: int| 0 <= j < i ==> !ocorre_em(texto@, palavra@, j),
        decreases limite + 1 - i,
    {
        if casa_em(texto, palavra, i) {
            return Some(i);
        }
        i += 1;
    }
    None
}

/// Um texto vazio não tem palavra, um espaço inicial é pulado, e um começo
/// útil estende-se até o primeiro espaço e é seguido do resto.
pub open spec fn palavras_de(s: Seq<char>, de: int) -> Seq<Seq<char>>
    decreases s.len() - de,
        via lema_palavras_decresce
{
    if de < 0 || de >= s.len() {
        Seq::empty()
    } else if s[de] == ' ' {
        palavras_de(s, de + 1)
    } else {
        let fim = primeiro_espaco(s, de);
        seq![s.subrange(de, fim)] + palavras_de(s, fim)
    }
}

#[via_fn]
proof fn lema_palavras_decresce(s: Seq<char>, de: int) {
    if 0 <= de < s.len() && s[de] != ' ' {
        lema_primeiro_espaco_cotas(s, de + 1);
    }
}

/// As palavras do texto, na ordem, separadas por espaços; trechos vazios
/// entre espaços seguidos não contam.
pub fn extrair_palavras<'a>(s: &'a str) -> (palavras: Vec<&'a str>)
    ensures
        palavras.deep_view() == palavras_de(s@, 0),
{
    let tamanho = s.unicode_len();
    let mut palavras: Vec<&'a str> = Vec::new();
    let mut inicio: usize = 0;
    let mut i: usize = 0;
    while i < tamanho
        invariant
            tamanho == s@.len(),
            inicio <= i <= tamanho,
            forall|k: int| inicio <= k < i ==> s@[k] != ' ',
            palavras_de(s@, 0) == palavras.deep_view() + palavras_de(s@, inicio as int),
        decreases tamanho - i,
    {
        let ghost antes = palavras.deep_view();
        if s.get_char(i) == ' ' {
            if inicio != i {
                proof {
                    lema_primeiro_espaco_avanca(s@, inicio as int, i as int);
                    assert(primeiro_espaco(s@, inicio as int) == i);
                }
                let trecho = s.substring_char(inicio, i);
                palavras.push(trecho);
                proof {
                    assert(palavras.deep_view() =~= antes.push(trecho@));
                    assert(antes.push(trecho@) =~= antes + seq![trecho@]);
                    assert(antes + (seq![trecho@] + palavras_de(s@, i as int)) =~= (antes
                        + seq![trecho@]) + palavras_de(s@, i as int));
                }
            }
            inicio = i + 1;
        }
        i += 1;
    }
    if inicio < tamanho {
        proof {
            lema_primeiro_espaco_avanca(s@, inicio as int, tamanho as int);
            assert(primeiro_espaco(s@, inicio as int) == tamanho);
        }
        let ghost antes = palavras.deep_view();
        let trecho = s.substring_char(inicio, tamanho);
        palavras.push(trecho);
        proof {
            assert(palavras.deep_view() =~= antes.push(trecho@));
            assert(antes.push(trecho@) =~= antes + seq![trecho@]);
            assert(palavras_de(s@, tamanho as int) =~= Seq::empty());
            assert(seq![trecho@] + Seq::<Seq<char>>::empty() =~= seq![trecho@]);
            assert(antes + seq![trecho@] =~= palavras.deep_view());
        }
    } else {
        proof {
            assert(palavras_de(s@, inicio as int) =~= Seq::empty());
            assert(palavras.deep_view() + Seq::<Seq<char>>::empty() =~= palavras.deep_view());
        }
    }
    palavras
}

/// O conteúdo que corresponde a um nome de arquivo não vazio; um nome vazio
/// é recusado com a mensagem de erro própria.
pub fn abrir_arquivo(nome: &str) -> (r: Result<String, String>)
    ensures
        nome@.len() == 0 ==> (r matches Err(mensagem) && mensagem@
            == "Nome do arquivo não pode ser vazio"@),
        nome@.len() > 0 ==> (r matches Ok(conteudo) && conteudo@ == "Conteúdo do arquivo "@
            + nome@),
{
    if nome.is_empty() {
        Err("Nome do arquivo não pode ser vazio".to_owned())
    } else {
        let mut conteudo = "Conteúdo do arquivo ".to_owned();
        conteudo.append(nome);
        Ok(conteudo)
    }
}

} // verus!
