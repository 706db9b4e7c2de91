//! Funções sobre inteiros: aritmética básica com cotas contra
//! transbordamento, fatorial e Fibonacci recursivos, paridade, dobro por
//! referência, a soma de uma fatia e a aplicação de uma operação recebida
//! como valor.

use vstd::prelude::*;

verus! {

/// A soma de dois inteiros.
pub fn somar(a: i32, b: i32) -> (r: i32)
    requires
        i32::MIN <= a + b <= i32::MAX,
    ensures
        r == a + b,
{
    a + b
}

/// O quadrado de um inteiro.
pub fn elevar_ao_quadrado(x: i32) -> (r: i32)
    requires
        x * x <= i32::MAX,
    ensures
        r == x * x,
{
    proof {
        assert(x * x >= 0) by (nonlinear_arith);
    }
    x * x
}

/// A soma e o produto de dois inteiros, de uma vez.
pub fn operacoes(a: i32, b: i32) -> (r: (i32, i32))
    requires
        i32::MIN <= a + b <= i32::MAX,
        i32::MIN <= a * b <= i32::MAX,
    ensures
        r.0 == a + b,
        r.1 == a * b,
{
    (a + b, a * b)
}

/// O fatorial de um número natural.
pub open spec fn spec_fatorial(n: nat) -> nat
    decreases n,
{
    if n <= 1 {
        1
    } else {
        n * spec_fatorial((n - 1) as nat)
    }
}

proof fn lema_fatorial_cresce(n: nat)
    requires
        n >= 1,
    ensures
        spec_fatorial((n - 1) as nat) <= spec_fatorial(n),
{
    if n > 1 {
        let anterior = spec_fatorial((n - 1) as nat);
        assert(n * anterior >= anterior) by (nonlinear_arith)
            requires
                n >= 2,
                anterior >= 0,
        ;
    }
}

pub fn fatorial(n: u32) -> (r: u32)
    requires
        spec_fatorial(n as nat) <= u32::MAX,
    ensures
        r == spec_fatorial(n as nat),
    decreases n,
{
    if n <= 1 {
        1
    } else {
        proof {
            lema_fatorial_cresce(n as nat);
        }
        let anterior = fatorial(n - 1);
        n * anterior
    }
}

/// O número de Fibonacci de índice `n`.
pub open spec fn spec_fibonacci(n: nat) -> nat
    decreases n,
{
    if n == 0 {
        0
    } else if n == 1 {
        1
    } else {
        spec_fibonacci((n - 2) as nat) + spec_fibonacci((n - 1) as nat)
    }
}

pub fn fibonacci(n: u32) -> (r: u32)
    requires
        spec_fibonacci(n as nat) <= u32::MAX,
    ensures
        r == spec_fibonacci(n as nat),
    decreases n,
{
    match n {
        0 => 0,
        1 => 1,
        _ => fibonacci(n - 1) + fibonacci(n - 2),
    }
}

/// Diz se um inteiro é par.
pub fn verificar_par(numero: i32) -> (r: bool)
    ensures
        r == (numero as int % 2 == 0),
{
    numero % 2 == 0
}

/// Dobra o valor apontado.
pub fn dobrar_valor(valor: &mut i32)
    requires
        i32::MIN <= 2 * *old(valor) <= i32::MAX,
    ensures
        *final(valor) == 2 * *old(valor),
{
    *valor *= 2;
}

/// O primeiro elemento de uma fatia, quando ela tem algum.
pub fn _primeiro_elemento<T>(lista: &[T]) -> (r: Option<&T>)
    ensures
        lista@.len() == 0 ==> r is None,
        lista@.len() > 0 ==> (r matches Some(x) && *x == lista@[0]),
{
    lista.first()
}

/// Aplica a operação recebida aos dois inteiros; o contrato dela é o que
/// quem chama estabelecer.
pub fn aplicar_operacao<F: Fn(i32, i32) -> i32>(a: i32, b: i32, operacao: F) -> (r: i32)
    requires
        call_requires(operacao, (a, b)),
    ensures
        call_ensures(operacao, (a, b), r),
{
    operacao(a, b)
}

/// O sucessor do valor contido, ou zero na ausência de valor.
pub fn plus_one(x: Option<i32>) -> (r: i32)
    requires
        x matches Some(i) ==> i < i32::MAX,
    ensures
        x is None ==> r == 0,
        x matches Some(i) ==> r == i + 1,
{
    match x {
        None => 0,
        Some(i) => i + 1,
    }
}

/// A soma dos elementos de uma fatia, da esquerda para a direita.
pub open spec fn soma_da_fatia(s: Seq<i32>) -> int
    decreases s.len(),
{
    if s.len() == 0 {
        0
    } else {
        soma_da_fatia(s.drop_last()) + s.last()
    }
}

pub fn somar_slice(slice: &[i32]) -> (soma: i32)
    requires
        forall|k: int|
            0 <= k <= slice@.len() ==> i32::MIN <= #[trigger] soma_da_fatia(slice@.subrange(0, k))
                <= i32::MAX,
    ensures
        soma == soma_da_fatia(slice@),
{
    let tamanho = slice.len();
    let mut soma: i32 = 0;
    let mut i: usize = 0;
    while i < tamanho
        invariant
            tamanho == slice@.len(),
            i <= tamanho,
            soma == soma_da_fatia(slice@.subrange(0, i as int)),
            forall|k: int|
                0 <= k <= slice@.len() ==> i32::MIN <= #[trigger] soma_da_fatia(
                    slice@.subrange(0, k),
                ) <= i32::MAX,
        decreases tamanho - i,
    {
        let ghost estendido = slice@.subrange(0, i as int + 1);
        proof {
            assert(estendido.drop_last() =~= slice@.subrange(0, i as int));
            assert(estendido.last() == slice@[i as int]);
            assert(soma_da_fatia(slice@.subrange(0, i as int + 1)) == soma + slice@[i as int]);
        }
        soma = soma + slice[i];
        i += 1;
    }
    proof {
        assert(slice@.subrange(0, tamanho as int) =~= slice@);
    }
    soma
}

} // verus!
