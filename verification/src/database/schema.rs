//! The first rows of the tables: the origin user, who invites the others.

use crate::auth::utils::{generate_salt, hash_password_sha256, password_digest};
use crate::database::commands::create_user;
use crate::database::connection::DbConnection;
use crate::database::tables::{Tables, UserRecord};
use crate::error::InternalError;
use crate::models::user::{CreateUser, UserRole};
use vstd::prelude::*;

verus! {

/// The alias of the origin user.
pub const ORIGIN_ALIAS: &'static str = "origin";

/// The display name of the origin user.
pub const ORIGIN_DISPLAY_NAME: &'static str = "Origin User";

/// The password of the origin user until it is changed.
pub const ORIGIN_PASSWORD: &'static str = "changepassword";

/// The origin user under a salt and an identity: an administrator whom nobody invited.
pub open spec fn origin_user(id: i32, salt: Seq<u8>) -> UserRecord {
    UserRecord {
        id,
        alias: ORIGIN_ALIAS@,
        display_name: ORIGIN_DISPLAY_NAME@,
        role: UserRole::Admin,
        password_salt: salt,
        password_hash: password_digest(ORIGIN_PASSWORD@, salt),
        invited_by: None,
    }
}

/// The origin user with a salt that was drawn.
pub fn origin_user_with(salt: [u8; 16]) -> (user: CreateUser)
    ensures
        forall|id: i32| #[trigger] user.record(id) == origin_user(id, salt@),
{
    let hash = hash_password_sha256(ORIGIN_PASSWORD, salt);
    CreateUser {
        alias: ORIGIN_ALIAS.to_owned(),
        display_name: ORIGIN_DISPLAY_NAME.to_owned(),
        role: UserRole::Admin,
        password_hash: hash,
        password_salt: salt,
        invited_by: None,
    }
}

/// The origin user with a fresh random salt.
pub fn default_origin_user() -> (user: CreateUser)
    ensures
        forall|id: i32| #[trigger] user.record(id) == origin_user(id, user.password_salt@),
{
    let salt = generate_salt();
    origin_user_with(salt)
}

/// Inserts the origin user. Fails, and changes nothing, where the alias
/// is taken or no identity is left.
pub fn create_origin_user(db: &mut DbConnection) -> (result: Result<(), InternalError>)
    requires
        old(db).wf(),
    ensures
        final(db).wf(),
        match old(db)@.create_user_error(ORIGIN_ALIAS@, None) {
            Some(e) => result == Err::<(), InternalError>(e) && final(db)@ == old(db)@,
            None => result is Ok && exists|salt: Seq<u8>|
                final(db)@ == old(db)@.with_user(
                    #[trigger] origin_user(old(db)@.next_user_id, salt),
                ),
        },
{
    let user = default_origin_user();
    match create_user(db, &user) {
        Ok(_) => {
            assert(user.record(old(db)@.next_user_id) == origin_user(
                old(db)@.next_user_id,
                user.password_salt@,
            ));
            Ok(())
        },
        Err(e) => Err(e),
    }
}

impl DbConnection {
    /// Seeds the tables with the origin user. On tables without a row the
    /// origin user takes the identity 1.
    pub fn init_schema(&mut self) -> (result: Result<(), InternalError>)
        requires
            old(self).wf(),
        ensures
            final(self).wf(),
            match old(self)@.create_user_error(ORIGIN_ALIAS@, None) {
                Some(e) => result == Err::<(), InternalError>(e) && final(self)@ == old(self)@,
                None => result is Ok && exists|salt: Seq<u8>|
                    final(self)@ == old(self)@.with_user(
                        #[trigger] origin_user(old(self)@.next_user_id, salt),
                    ),
            },
    {
        create_origin_user(self)
    }

    /// Empties every table and starts every identity column anew.
    pub fn drop_schema(&mut self) -> (result: Result<(), InternalError>)
        ensures
            final(self).wf(),
            result is Ok,
            final(self)@ == Tables::empty(),
    {
        *self = DbConnection::new();
        Ok(())
    }
}

} // verus!
