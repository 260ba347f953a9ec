//! The variables that every resource's templates see besides the
//! manifest's: the resource's name and its idempotency token, which is
//! drawn once per resource and run and kept in the global context, so that
//! downstream resources can read it too.
use vstd::prelude::*;
use crate::engine::new_uuid;
use crate::text::{chars_of, string_of, push_str};
use crate::varmap::VarMap;

verus! {

/// The global name of a resource's idempotency token.
pub open spec fn token_key(resource: Seq<char>) -> Seq<char> {
    resource + ".idempotency_token"@
}

fn token_key_exec(resource: &str) -> (r: String)
    ensures
        r@ == token_key(resource@),
{
    let mut t = chars_of(resource);
    push_str(&mut t, ".idempotency_token");
    string_of(t.as_slice())
}

/// A request for the token of `resource` in `global`: the one kept there,
/// else `fresh`, which is then kept.
pub open spec fn token_step(global: Map<Seq<char>, Seq<char>>, resource: Seq<char>, fresh: Seq<char>) -> (Map<Seq<char>, Seq<char>>, Seq<char>) {
    if global.contains_key(token_key(resource)) {
        (global, global[token_key(resource)])
    } else {
        (global.insert(token_key(resource), fresh), fresh)
    }
}

/// The idempotency token of `resource` for this run: the one already kept
/// in `global`, else a fresh random UUID, which is kept there.
pub fn resource_token(global: &mut VarMap, resource: &str) -> (r: String)
    ensures
        (final(global)@, r@) == token_step(old(global)@, resource@, r@),
{
    let key = token_key_exec(resource);
    match global.get(key.as_str()) {
        Some(t) => t.clone(),
        None => {
            let fresh = new_uuid();
            global.insert(key, fresh.clone());
            fresh
        },
    }
}

/// The variables of a resource: `resource_name`, and its token as
/// `idempotency_token` and `this.idempotency_token`.
pub open spec fn with_resource_variables(ctx: Map<Seq<char>, Seq<char>>, resource: Seq<char>, token: Seq<char>) -> Map<Seq<char>, Seq<char>> {
    ctx.insert("resource_name"@, resource).insert("idempotency_token"@, token).insert("this.idempotency_token"@, token)
}

/// Adds the variables of `resource` to its context.
pub fn add_resource_variables(ctx: &mut VarMap, resource: &str, token: &str)
    ensures
        final(ctx)@ == with_resource_variables(old(ctx)@, resource@, token@),
{
    ctx.insert("resource_name".to_owned(), resource.to_owned());
    ctx.insert("idempotency_token".to_owned(), token.to_owned());
    ctx.insert("this.idempotency_token".to_owned(), token.to_owned());
}

/// A resource's token is drawn once per run: once kept, every later
/// request gives it back and changes nothing.
pub proof fn law_token_is_stable(global: Map<Seq<char>, Seq<char>>, resource: Seq<char>, first: Seq<char>, second: Seq<char>)
    ensures
        ({
            let (g1, t1) = token_step(global, resource, first);
            let (g2, t2) = token_step(g1, resource, second);
            t2 == t1 && g2 == g1
        }),
{
}

} // verus!
