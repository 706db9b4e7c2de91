//! Validação da entrada: aparar espaços de uma linha, interpretar a escolha
//! do menu como inteiro sem sinal, reconhecer uma linha numérica bem formada
//! e escolher a primeira tentativa válida de uma sequência de tentativas.

use vstd::prelude::*;

verus! {

/// Os espaços em branco que uma linha lida do terminal pode carregar.
pub open spec fn eh_espaco(c: char) -> bool {
    c == ' ' || c == '\t' || c == '\n' || c == '\r'
}

/// O índice do primeiro caractere útil a partir de `i`, ou o fim do texto.
pub open spec fn inicio_util(s: Seq<char>, i: int) -> int
    decreases s.len() - i,
{
    if i < 0 || i >= s.len() {
        s.len() as int
    } else if eh_espaco(s[i]) {
        inicio_util(s, i + 1)
    } else {
        i
    }
}

/// O índice logo após o último caractere útil antes de `j`, ou zero.
pub open spec fn fim_util(s: Seq<char>, j: int) -> int
    decreases j,
{
    if j <= 0 || j > s.len() {
        0
    } else if eh_espaco(s[j - 1]) {
        fim_util(s, j - 1)
    } else {
        j
    }
}

/// O texto sem os espaços em branco das duas pontas.
pub open spec fn aparado(s: Seq<char>) -> Seq<char> {
    let a = inicio_util(s, 0);
    let b = fim_util(s, s.len() as int);
    if a < b {
        s.subrange(a, b)
    } else {
        Seq::empty()
    }
}

proof fn lema_inicio_avanca(s: Seq<char>, i: int)
    requires
        0 <= i <= s.len(),
        forall|k: int| 0 <= k < i ==> eh_espaco(s[k]),
    ensures
        inicio_util(s, 0) == inicio_util(s, i),
    decreases i,
{
    if i > 0 {
        lema_inicio_avanca(s, i - 1);
    }
}

proof fn lema_fim_recua(s: Seq<char>, j: int)
    requires
        0 <= j <= s.len(),
        forall|k: int| j <= k < s.len() ==> eh_espaco(s[k]),
    ensures
        fim_util(s, s.len() as int) == fim_util(s, j),
    decreases s.len() - j,
{
    if j < s.len() {
        lema_fim_recua(s, j + 1);
    }
}

proof fn lema_fim_cota(s: Seq<char>, j: int)
    requires
        0 <= j <= s.len(),
    ensures
        0 <= fim_util(s, j) <= j,
    decreases j,
{
    if j > 0 && eh_espaco(s[j - 1]) {
        lema_fim_cota(s, j - 1);
    }
}

fn eh_espaco_exec(c: char) -> (r: bool)
    ensures
        r == eh_espaco(c),
{
    c == ' ' || c == '\t' || c == '\n' || c == '\r'
}

/// Remove os espaços em branco das duas pontas de uma linha.
pub fn aparar(s: &str) -> (r: &str)
    ensures
        r@ == aparado(s@),
{
    let tamanho = s.unicode_len();
    let mut a: usize = 0;
    while a < tamanho && eh_espaco_exec(s.get_char(a))
        invariant
            tamanho == s@.len(),
            a <= tamanho,
            forall|k: int| 0 <= k < a ==> eh_espaco(s@[k]),
        decreases tamanho - a,
    {
        a += 1;
    }
    proof {
        lema_inicio_avanca(s@, a as int);
        assert(inicio_util(s@, 0) == a);
    }
    let mut b: usize = tamanho;
    while b > a && eh_espaco_exec(s.get_char(b - 1))
        invariant
            tamanho == s@.len(),
            a <= b <= tamanho,
            forall|k: int| b <= k < tamanho ==> eh_espaco(s@[k]),
        decreases b,
    {
        b -= 1;
    }
    if a == b {
        proof {
            lema_fim_recua(s@, b as int);
            lema_fim_cota(s@, b as int);
            assert(aparado(s@) =~= Seq::empty());
        }
        s.substring_char(0, 0)
    } else {
        proof {
            lema_fim_recua(s@, b as int);
            assert(!eh_espaco(s@[b - 1]));
            assert(fim_util(s@, s@.len() as int) == b);
        }
        s.substring_char(a, b)
    }
}

/// Um algarismo decimal.
pub open spec fn eh_digito(c: char) -> bool {
    '0' as int <= c as int <= '9' as int
}

pub open spec fn valor_digito(c: char) -> int {
    c as int - '0' as int
}

/// Um texto não vazio feito só de algarismos.
pub open spec fn so_digitos(s: Seq<char>) -> bool {
    s.len() > 0 && forall|i: int| 0 <= i < s.len() ==> eh_digito(s[i])
}

/// O texto sem um sinal `+` inicial, se houver.
pub open spec fn sem_sinal_mais(s: Seq<char>) -> Seq<char> {
    if s.len() > 0 && s[0] == '+' {
        s.subrange(1, s.len() as int)
    } else {
        s
    }
}

/// O valor decimal de uma sequência de algarismos.
pub open spec fn valor_numerico(s: Seq<char>) -> int
    decreases s.len(),
{
    if s.len() == 0 {
        0
    } else {
        valor_numerico(s.drop_last()) * 10 + valor_digito(s.last())
    }
}

/// O que `u32` faz de uma linha: aceita um sinal `+` opcional seguido de
/// algarismos cujo valor caiba em 32 bits, e rejeita qualquer outra forma.
pub open spec fn analise_u32(s: Seq<char>) -> Option<u32> {
    let digitos = sem_sinal_mais(s);
    if so_digitos(digitos) && valor_numerico(digitos) <= u32::MAX {
        Some(valor_numerico(digitos) as u32)
    } else {
        None
    }
}

proof fn lema_valor_nao_negativo(s: Seq<char>)
    requires
        forall|i: int| 0 <= i < s.len() ==> eh_digito(s[i]),
    ensures
        valor_numerico(s) >= 0,
    decreases s.len(),
{
    if s.len() > 0 {
        lema_valor_nao_negativo(s.drop_last());
    }
}

/// O valor de um prefixo nunca passa do valor do texto inteiro.
proof fn lema_valor_prefixo(s: Seq<char>, k: int)
    requires
        forall|i: int| 0 <= i < s.len() ==> eh_digito(s[i]),
        0 <= k <= s.len(),
    ensures
        valor_numerico(s.subrange(0, k)) <= valor_numerico(s),
    decreases s.len(),
{
    if k == s.len() {
        assert(s.subrange(0, k) =~= s);
    } else {
        assert(s.drop_last().subrange(0, k) =~= s.subrange(0, k));
        lema_valor_prefixo(s.drop_last(), k);
        lema_valor_nao_negativo(s.drop_last());
    }
}

/// Interpreta um texto como `u32`, como a biblioteca padrão o faz.
pub fn analisar_u32(s: &str) -> (r: Option<u32>)
    ensures
        r == analise_u32(s@),
{
    let tamanho = s.unicode_len();
    let inicio: usize = if tamanho > 0 && s.get_char(0) == '+' {
        1
    } else {
        0
    };
    let ghost digitos = sem_sinal_mais(s@);
    proof {
        assert(digitos =~= s@.subrange(inicio as int, tamanho as int));
    }
    if inicio == tamanho {
        return None;
    }
    let mut acumulado: u32 = 0;
    let mut i: usize = inicio;
    while i < tamanho
        invariant
            tamanho == s@.len(),
            inicio <= i <= tamanho,
            inicio < tamanho,
            digitos == sem_sinal_mais(s@),
            digitos =~= s@.subrange(inicio as int, tamanho as int),
            forall|k: int| inicio <= k < i ==> eh_digito(s@[k]),
            acumulado == valor_numerico(s@.subrange(inicio as int, i as int)),
        decreases tamanho - i,
    {
        let c = s.get_char(i);
        let codigo = c as u32;
        if codigo < 48 || codigo > 57 {
            proof {
                assert(!eh_digito(digitos[i - inicio]));
            }
            return None;
        }
        let d: u32 = codigo - 48;
        let ghost prefixo = s@.subrange(inicio as int, i as int);
        let ghost estendido = s@.subrange(inicio as int, i as int + 1);
        proof {
            assert(estendido.drop_last() =~= prefixo);
            assert(estendido.last() == s@[i as int]);
        }
        let proximo = match acumulado.checked_mul(10) {
            Some(m) => m.checked_add(d),
            None => None,
        };
        match proximo {
            Some(v) => {
                acumulado = v;
            },
            None => {
                proof {
                    assert(valor_numerico(estendido) > u32::MAX);
                    if so_digitos(digitos) && valor_numerico(digitos) <= u32::MAX {
                        assert(digitos.subrange(0, i - inicio + 1) =~= estendido);
                        lema_valor_prefixo(digitos, i - inicio + 1);
                    }
                }
                return None;
            },
        }
        i += 1;
    }
    proof {
        assert(s@.subrange(inicio as int, tamanho as int) =~= digitos);
        assert(so_digitos(digitos));
    }
    Some(acumulado)
}

/// Um caractere igual a uma letra minúscula dada, seja ele a própria letra ou
/// a sua forma maiúscula.
pub open spec fn mesma_letra(c: char, minuscula: char) -> bool {
    c == minuscula || ('A' as int <= c as int <= 'Z' as int && c as int + 32 == minuscula as int)
}

/// O trecho de `s` a partir de `de` é igual a `alvo`, letra a letra e sem
/// distinguir maiúsculas de minúsculas; `alvo` já está em minúsculas.
pub open spec fn trecho_sem_caixa(s: Seq<char>, de: int, alvo: Seq<char>) -> bool {
    s.len() - de == alvo.len() && forall|i: int|
        0 <= i < alvo.len() ==> mesma_letra(s[de + i], alvo[i])
}

/// O trecho `[de, ate)` tem a forma de uma mantissa: só algarismos e no
/// máximo um ponto, com pelo menos um algarismo.
pub open spec fn mantissa_em(s: Seq<char>, de: int, ate: int) -> bool {
    &&& forall|i: int| de <= i < ate ==> (eh_digito(s[i]) || s[i] == '.')
    &&& forall|i: int, j: int| de <= i < j < ate ==> !(s[i] == '.' && s[j] == '.')
    &&& exists|i: int| de <= i < ate && eh_digito(s[i])
}

/// O trecho de `de` até o fim tem a forma de um expoente: um sinal opcional
/// seguido de um ou mais algarismos.
pub open spec fn expoente_em(s: Seq<char>) -> bool {
    so_digitos(sem_sinal_geral(s))
}

/// O texto sem um sinal `+` ou `-` inicial, se houver.
pub open spec fn sem_sinal_geral(s: Seq<char>) -> Seq<char> {
    if s.len() > 0 && (s[0] == '+' || s[0] == '-') {
        s.subrange(1, s.len() as int)
    } else {
        s
    }
}

/// O índice do primeiro `e` ou `E` a partir de `i`, ou o fim do texto.
pub open spec fn primeiro_e(s: Seq<char>, i: int) -> int
    decreases s.len() - i,
{
    if i < 0 || i >= s.len() {
        s.len() as int
    } else if s[i] == 'e' || s[i] == 'E' {
        i
    } else {
        primeiro_e(s, i + 1)
    }
}

/// Uma mantissa a partir de `de`, seguida ou não de um expoente introduzido
/// pelo primeiro `e` ou `E`.
pub open spec fn numero_simples_em(s: Seq<char>, de: int) -> bool {
    let k = primeiro_e(s, de);
    if k == s.len() {
        mantissa_em(s, de, s.len() as int)
    } else {
        mantissa_em(s, de, k) && expoente_em(s.subrange(k + 1, s.len() as int))
    }
}

/// A gramática que `f64` aceita: um sinal opcional seguido de `inf`,
/// `infinity` ou `nan` em qualquer caixa, ou de um número com mantissa e
/// expoente opcional.
pub open spec fn eh_numero_valido(s: Seq<char>) -> bool {
    let de: int = if s.len() > 0 && (s[0] == '+' || s[0] == '-') {
        1
    } else {
        0
    };
    ||| trecho_sem_caixa(s, de, "inf"@)
    ||| trecho_sem_caixa(s, de, "infinity"@)
    ||| trecho_sem_caixa(s, de, "nan"@)
    ||| numero_simples_em(s, de)
}

fn eh_sinal(c: char) -> (r: bool)
    ensures
        r == (c == '+' || c == '-'),
{
    c == '+' || c == '-'
}

fn eh_marca_expoente(c: char) -> (r: bool)
    ensures
        r == (c == 'e' || c == 'E'),
{
    c == 'e' || c == 'E'
}

fn compara_sem_caixa(s: &str, de: usize, alvo: &str) -> (r: bool)
    requires
        de <= s@.len(),
    ensures
        r == trecho_sem_caixa(s@, de as int, alvo@),
{
    let tamanho = s.unicode_len();
    let alvo_tamanho = alvo.unicode_len();
    if tamanho - de != alvo_tamanho {
        return false;
    }
    let mut i: usize = 0;
    while i < alvo_tamanho
        invariant
            tamanho == s@.len(),
            alvo_tamanho == alvo@.len(),
            de + alvo_tamanho == tamanho,
            i <= alvo_tamanho,
            forall|j: int| 0 <= j < i ==> mesma_letra(s@[de + j], alvo@[j]),
        decreases alvo_tamanho - i,
    {
        let c = s.get_char(de + i);
        let alvo_c = alvo.get_char(i);
        let codigo = c as u32;
        if !(c == alvo_c || (codigo >= 65 && codigo <= 90 && codigo + 32 == alvo_c as u32)) {
            proof {
                assert(!mesma_letra(s@[de + i], alvo@[i as int]));
            }
            return false;
        }
        i += 1;
    }
    true
}

fn mantissa_valida(s: &str, de: usize, ate: usize) -> (r: bool)
    requires
        de <= ate <= s@.len(),
    ensures
        r == mantissa_em(s@, de as int, ate as int),
{
    let mut i: usize = de;
    let mut viu_digito = false;
    let ghost mut indice_digito: int = 0;
    let mut viu_ponto = false;
    let ghost mut indice_ponto: int = 0;
    while i < ate
        invariant
            de <= i <= ate <= s@.len(),
            forall|k: int| de <= k < i ==> (eh_digito(s@[k]) || s@[k] == '.'),
            forall|k: int, l: int| de <= k < l < i ==> !(s@[k] == '.' && s@[l] == '.'),
            viu_digito == exists|k: int| de <= k < i && eh_digito(s@[k]),
            viu_digito ==> de <= indice_digito < i && eh_digito(s@[indice_digito]),
            viu_ponto ==> de <= indice_ponto < i && s@[indice_ponto] == '.',
            !viu_ponto ==> forall|k: int| de <= k < i ==> s@[k] != '.',
        decreases ate - i,
    {
        let c = s.get_char(i);
        let codigo = c as u32;
        if codigo >= 48 && codigo <= 57 {
            viu_digito = true;
            proof {
                indice_digito = i as int;
            }
        } else if c == '.' {
            if viu_ponto {
                proof {
                    assert(s@[indice_ponto] == '.' && s@[i as int] == '.');
                }
                return false;
            }
            viu_ponto = true;
            proof {
                indice_ponto = i as int;
            }
        } else {
            proof {
                assert(!(eh_digito(s@[i as int]) || s@[i as int] == '.'));
            }
            return false;
        }
        i += 1;
    }
    viu_digito
}

fn expoente_valido(s: &str, de: usize) -> (r: bool)
    requires
        de <= s@.len(),
    ensures
        r == expoente_em(s@.subrange(de as int, s@.len() as int)),
{
    let tamanho = s.unicode_len();
    let ghost trecho = s@.subrange(de as int, tamanho as int);
    let inicio: usize = if de < tamanho && eh_sinal(s.get_char(de)) {
        de + 1
    } else {
        de
    };
    proof {
        assert(sem_sinal_geral(trecho) =~= s@.subrange(inicio as int, tamanho as int));
    }
    if inicio == tamanho {
        return false;
    }
    let mut i: usize = inicio;
    while i < tamanho
        invariant
            tamanho == s@.len(),
            inicio <= i <= tamanho,
            trecho == s@.subrange(de as int, tamanho as int),
            sem_sinal_geral(trecho) =~= s@.subrange(inicio as int, tamanho as int),
            forall|k: int| inicio <= k < i ==> eh_digito(s@[k]),
        decreases tamanho - i,
    {
        let c = s.get_char(i);
        let codigo = c as u32;
        if codigo < 48 || codigo > 57 {
            proof {
                assert(!eh_digito(sem_sinal_geral(trecho)[i - inicio]));
            }
            return false;
        }
        i += 1;
    }
    proof {
        assert(forall|k: int|
            0 <= k < sem_sinal_geral(trecho).len() ==> eh_digito(sem_sinal_geral(trecho)[k]));
    }
    true
}

proof fn lema_primeiro_e_avanca(s: Seq<char>, de: int, i: int)
    requires
        0 <= de <= i <= s.len(),
        forall|k: int| de <= k < i ==> !(s[k] == 'e' || s[k] == 'E'),
    ensures
        primeiro_e(s, de) == primeiro_e(s, i),
    decreases i - de,
{
    if de < i {
        lema_primeiro_e_avanca(s, de + 1, i);
    }
}

/// Decide se uma linha, já aparada, é um número que `f64` aceitaria.
pub fn numero_bem_formado(s: &str) -> (r: bool)
    ensures
        r == eh_numero_valido(s@),
{
    let tamanho = s.unicode_len();
    let de: usize = if tamanho > 0 && eh_sinal(s.get_char(0)) {
        1
    } else {
        0
    };
    if compara_sem_caixa(s, de, "inf") {
        return true;
    }
    if compara_sem_caixa(s, de, "infinity") {
        return true;
    }
    if compara_sem_caixa(s, de, "nan") {
        return true;
    }
    let mut k: usize = de;
    while k < tamanho && !eh_marca_expoente(s.get_char(k))
        invariant
            tamanho == s@.len(),
            de <= k <= tamanho,
            forall|j: int| de <= j < k ==> !(s@[j] == 'e' || s@[j] == 'E'),
        decreases tamanho - k,
    {
        k += 1;
    }
    proof {
        lema_primeiro_e_avanca(s@, de as int, k as int);
        assert(primeiro_e(s@, de as int) == k);
    }
    if k == tamanho {
        mantissa_valida(s, de, tamanho)
    } else {
        if !mantissa_valida(s, de, k) {
            return false;
        }
        expoente_valido(s, k + 1)
    }
}

/// A escolha do menu que uma linha produz: o valor lido, ou zero quando a
/// linha aparada não é um inteiro sem sinal bem formado.
pub open spec fn escolha_da_linha(linha: Seq<char>) -> u32 {
    match analise_u32(aparado(linha)) {
        Some(n) => n,
        None => 0u32,
    }
}

/// Lê a escolha do menu de uma linha de entrada.
pub fn ler_escolha_de(linha: &str) -> (escolha: u32)
    ensures
        escolha == escolha_da_linha(linha@),
{
    match analisar_u32(aparar(linha)) {
        Some(n) => n,
        None => 0,
    }
}

/// O índice da primeira linha do roteiro que, aparada, é um número bem
/// formado, a partir de `de`; o comprimento do roteiro quando não há
/// nenhuma. A leitura de um número consome exatamente as linhas até essa.
pub open spec fn primeira_linha_valida(linhas: Seq<Seq<char>>, de: int) -> int
    decreases linhas.len() - de,
{
    if de < 0 || de >= linhas.len() {
        linhas.len() as int
    } else if eh_numero_valido(aparado(linhas[de])) {
        de
    } else {
        primeira_linha_valida(linhas, de + 1)
    }
}

pub proof fn lema_linha_valida_cotas(linhas: Seq<Seq<char>>, de: int)
    requires
        0 <= de <= linhas.len(),
    ensures
        de <= primeira_linha_valida(linhas, de) <= linhas.len(),
    decreases linhas.len() - de,
{
    if de < linhas.len() && !eh_numero_valido(aparado(linhas[de])) {
        lema_linha_valida_cotas(linhas, de + 1);
    }
}

proof fn lema_linha_valida_avanca(linhas: Seq<Seq<char>>, de: int, i: int)
    requires
        0 <= de <= i <= linhas.len(),
        forall|k: int| de <= k < i ==> !eh_numero_valido(aparado(linhas[k])),
    ensures
        primeira_linha_valida(linhas, de) == primeira_linha_valida(linhas, i),
    decreases i - de,
{
    if de < i {
        lema_linha_valida_avanca(linhas, de + 1, i);
    }
}

/// Uma linha numérica bem formada é aceita logo na primeira tentativa: a
/// leitura não repete o pedido nenhuma vez.
pub proof fn lema_primeira_tentativa(linhas: Seq<Seq<char>>, de: int)
    requires
        0 <= de < linhas.len(),
        eh_numero_valido(aparado(linhas[de])),
    ensures
        primeira_linha_valida(linhas, de) == de,
{
}

/// As repetições da leitura são exatamente as tentativas malformadas: toda
/// linha anterior à aceita é inválida, e a linha aceita, quando o roteiro a
/// tem, é válida.
pub proof fn lema_tentativas_malformadas(linhas: Seq<Seq<char>>, de: int)
    requires
        0 <= de <= linhas.len(),
    ensures
        forall|k: int|
            de <= k < primeira_linha_valida(linhas, de) ==> !eh_numero_valido(
                aparado(linhas[k]),
            ),
        primeira_linha_valida(linhas, de) < linhas.len() ==> eh_numero_valido(
            aparado(linhas[primeira_linha_valida(linhas, de)]),
        ),
    decreases linhas.len() - de,
{
    if de < linhas.len() && !eh_numero_valido(aparado(linhas[de])) {
        lema_tentativas_malformadas(linhas, de + 1);
        lema_linha_valida_cotas(linhas, de + 1);
    }
}

/// Procura no roteiro a primeira linha numérica bem formada a partir de
/// `de`, como a leitura com repetição faria.
pub fn buscar_linha_valida(linhas: &Vec<String>, de: usize) -> (r: usize)
    requires
        de <= linhas@.len(),
    ensures
        r == primeira_linha_valida(linhas.deep_view(), de as int),
        de <= r <= linhas@.len(),
{
    let ghost roteiro = linhas.deep_view();
    let tamanho = linhas.len();
    proof {
        assert(roteiro.len() == tamanho);
    }
    let mut i: usize = de;
    while i < tamanho
        invariant
            roteiro == linhas.deep_view(),
            roteiro.len() == tamanho,
            tamanho == linhas@.len(),
            de <= i <= tamanho,
            forall|k: int| de <= k < i ==> !eh_numero_valido(aparado(roteiro[k])),
        decreases tamanho - i,
    {
        proof {
            assert(roteiro[i as int] == linhas@[i as int]@);
        }
        if numero_bem_formado(aparar(linhas[i].as_str())) {
            proof {
                lema_linha_valida_avanca(roteiro, de as int, i as int);
            }
            return i;
        }
        i += 1;
    }
    proof {
        lema_linha_valida_avanca(roteiro, de as int, tamanho as int);
    }
    tamanho
}

} // verus!
