//! O cadastro mínimo de um usuário e o seu construtor.

use vstd::prelude::*;

verus! {

/// Um usuário com nome, endereço, contagem de entradas e situação.
pub struct User {
    pub username: String,
    pub email: String,
    pub sign_in_count: u64,
    pub active: bool,
}

/// Monta um usuário novo: ativo e com uma entrada registrada.
pub fn build_user(email: String, username: String) -> (usuario: User)
    ensures
        usuario.email == email,
        usuario.username == username,
        usuario.active == true,
        usuario.sign_in_count == 1,
{
    User { email, username, active: true, sign_in_count: 1 }
}

} // verus!
