//! Avatar uploads: the byte-level PNG check and the stored-avatar
//! update with its cooldown. Moving the file itself to object storage
//! is the caller's business.

use vstd::prelude::*;

use crate::account::AVATAR_COOLDOWN;
use crate::bytes::bytes_clone;
use crate::model::{now_ok, ts_ok, User};
use crate::store::Store;

verus! {

/// Required width and height of an avatar image.
pub const AVATAR_SIDE: u32 = 300;

/// The big-endian 32-bit number at `at`.
pub open spec fn spec_be32(b: Seq<u8>, at: int) -> int {
    b[at] * 0x1000000 + b[at + 1] * 0x10000 + b[at + 2] * 0x100 + b[at + 3]
}

/// An acceptable avatar: a PNG (its eight-byte signature, an `IHDR`
/// first chunk) whose header declares exactly 300 by 300 pixels.
pub open spec fn spec_avatar_png_ok(b: Seq<u8>) -> bool {
    &&& b.len() >= 24
    &&& b[0] == 0x89 && b[1] == 0x50 && b[2] == 0x4e && b[3] == 0x47
    &&& b[4] == 0x0d && b[5] == 0x0a && b[6] == 0x1a && b[7] == 0x0a
    &&& b[12] == 0x49 && b[13] == 0x48 && b[14] == 0x44 && b[15] == 0x52
    &&& spec_be32(b, 16) == AVATAR_SIDE
    &&& spec_be32(b, 20) == AVATAR_SIDE
}

/// Check an uploaded image byte for byte: PNG signature, `IHDR` first
/// chunk, and exact dimensions.
pub fn validate_avatar_png(b: &Vec<u8>) -> (r: bool)
    ensures
        r == spec_avatar_png_ok(b@),
{
    if b.len() < 24 {
        return false;
    }
    if !(b[0] == 0x89 && b[1] == 0x50 && b[2] == 0x4e && b[3] == 0x47 && b[4] == 0x0d && b[5]
        == 0x0a && b[6] == 0x1a && b[7] == 0x0a) {
        return false;
    }
    if !(b[12] == 0x49 && b[13] == 0x48 && b[14] == 0x44 && b[15] == 0x52) {
        return false;
    }
    let width: u32 = (b[16] as u32) * 0x1000000 + (b[17] as u32) * 0x10000 + (b[18] as u32) * 0x100
        + (b[19] as u32);
    let height: u32 = (b[20] as u32) * 0x1000000 + (b[21] as u32) * 0x10000 + (b[22] as u32)
        * 0x100 + (b[23] as u32);
    width == AVATAR_SIDE && height == AVATAR_SIDE
}

/// Record a finished avatar change: permitted only outside the cooldown
/// window; stores the new avatar identifier and the change time.
pub fn record_avatar_change(store: &mut Store, ui: usize, avatar_id: &Vec<u8>, now: i64) -> (r:
    Result<(), ()>)
    requires
        old(store).wf(),
        ui < old(store).users@.len(),
        now_ok(now),
    ensures
        final(store).wf(),
        final(store).sessions@ == old(store).sessions@,
        final(store).oauth_apps@ == old(store).oauth_apps@,
        final(store).oauth_codes@ == old(store).oauth_codes@,
        final(store).oauth_sessions@ == old(store).oauth_sessions@,
        ({
            let u0 = old(store).users@[ui as int];
            &&& (r is Ok <==> u0.last_avatar_change + AVATAR_COOLDOWN <= now)
            &&& (r is Err ==> final(store).users@ == old(store).users@)
            &&& (r is Ok ==> {
                let u1 = final(store).users@[ui as int];
                &&& final(store).users@ == old(store).users@.update(ui as int, u1)
                &&& u1 == User { avatar: u1.avatar, last_avatar_change: now, ..u0 }
                &&& u1.avatar@ == avatar_id@
            })
        }),
{
    if store.users[ui].last_avatar_change + AVATAR_COOLDOWN > now {
        return Err(());
    }
    let mut u = store.users.remove(ui);
    u.avatar = bytes_clone(avatar_id);
    u.last_avatar_change = now;
    store.users.insert(ui, u);
    proof {
        assert(store.users@ =~= old(store).users@.update(ui as int, store.users@[ui as int]));
        assert forall|k: int| 0 <= k < store.users@.len() implies (#[trigger] store.users@[k]).wf()
            by {
            if k != ui as int {
                assert(store.users@[k] == old(store).users@[k]);
            }
        }
    }
    Ok(())
}

} // verus!
