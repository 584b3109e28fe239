use vstd::prelude::*;

verus! {

/// Relies on bcrypt::hash with bcrypt::DEFAULT_COST: a successful result
/// is the 60-character hash string (version, cost, salt, digest). The salt
/// is drawn from the operating system, so nothing is promised of the
/// value itself; a failure carries the error's text, which by the error
/// type's shape never embeds the password.
#[verifier::external_body]
pub fn bcrypt_hash(password: &str) -> (r: Result<String, String>)
    ensures
        r matches Ok(h) ==> h@.len() == 60,
{
    match bcrypt::hash(password, bcrypt::DEFAULT_COST) {
        Ok(h) => Ok(h),
        Err(e) => Err(format!("{:?}", e)),
    }
}

} // verus!
