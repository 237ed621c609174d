//! Where each application is loaded, and what loading it copies.
use vstd::prelude::*;
use super::{APP_BASE_ADDRESS, APP_SIZE_LIMIT, APP_START_LEN, MAX_APP_NUM};

verus! {

/// The applications linked into the kernel image: how many there are, and
/// where each one's bytes start; `app_start[num_app]` is where the last ends.
pub struct AppManager {
    pub num_app: usize,
    pub app_start: [usize; APP_START_LEN],
}

/// What loading one application does: zero the bytes of its slot,
/// `[dst, clear_end)`, then copy `len` bytes from `src` to `dst`.
#[derive(Clone, Copy, PartialEq, Eq, Debug, Structural)]
pub struct AppLoad {
    pub dst: usize,
    pub clear_end: usize,
    pub src: usize,
    pub len: usize,
}

/// The address at which application `app_id` is loaded and starts.
pub open spec fn app_base(app_id: nat) -> nat {
    (APP_BASE_ADDRESS + app_id * APP_SIZE_LIMIT) as nat
}

/// The slots of two different applications do not overlap.
pub proof fn lemma_app_slots_disjoint(i: nat, j: nat)
    requires
        i != j,
    ensures
        app_base(i) + APP_SIZE_LIMIT <= app_base(j) || app_base(j) + APP_SIZE_LIMIT <= app_base(i),
{
    if i < j {
        assert(i * APP_SIZE_LIMIT + APP_SIZE_LIMIT <= j * APP_SIZE_LIMIT) by (nonlinear_arith)
            requires
                i < j,
        ;
    } else {
        assert(j * APP_SIZE_LIMIT + APP_SIZE_LIMIT <= i * APP_SIZE_LIMIT) by (nonlinear_arith)
            requires
                j < i,
        ;
    }
}

/// The load address of application `app_id`.
pub fn get_base_i(app_id: usize) -> (r: usize)
    requires
        app_base(app_id as nat) <= usize::MAX,
    ensures
        r == app_base(app_id as nat),
{
    APP_BASE_ADDRESS + app_id * APP_SIZE_LIMIT
}

impl AppManager {
    /// The application table read from the kernel image: `num_app`, then the
    /// `num_app + 1` boundaries `app_start_raw`; the unused entries are 0.
    pub fn new(num_app: usize, app_start_raw: &[usize]) -> (r: AppManager)
        requires
            num_app <= MAX_APP_NUM,
            app_start_raw@.len() == num_app + 1,
        ensures
            r.num_app == num_app,
            forall|i: int| 0 <= i <= num_app ==> #[trigger] r.app_start@[i] == app_start_raw@[i],
            forall|i: int| num_app < i < APP_START_LEN ==> #[trigger] r.app_start@[i] == 0,
    {
        let mut app_start: [usize; APP_START_LEN] = [0; APP_START_LEN];
        for i in 0..num_app + 1
            invariant
                num_app <= MAX_APP_NUM,
                app_start_raw@.len() == num_app + 1,
                forall|j: int| 0 <= j < i ==> #[trigger] app_start@[j] == app_start_raw@[j],
                forall|j: int| i <= j < APP_START_LEN ==> #[trigger] app_start@[j] == 0,
        {
            app_start[i] = app_start_raw[i];
        }
        AppManager { num_app: num_app, app_start: app_start }
    }

    /// Whether the bytes of application `app_id` are given in order.
    pub open spec fn image_in_order(&self, app_id: int) -> bool {
        self.app_start@[app_id] <= self.app_start@[app_id + 1]
    }

    /// What loading application `app_id` does.
    pub open spec fn load_spec(&self, app_id: int) -> AppLoad {
        AppLoad {
            dst: app_base(app_id as nat) as usize,
            clear_end: (app_base(app_id as nat) + APP_SIZE_LIMIT) as usize,
            src: self.app_start@[app_id],
            len: (self.app_start@[app_id + 1] - self.app_start@[app_id]) as usize,
        }
    }

    /// Loading application `app_id`: its slot is zeroed, then its bytes from
    /// the kernel image are copied to the start of the slot.
    pub fn load_app(&self, app_id: usize) -> (r: AppLoad)
        requires
            app_id < MAX_APP_NUM,
            self.image_in_order(app_id as int),
        ensures
            r == self.load_spec(app_id as int),
            r.dst == APP_BASE_ADDRESS + app_id * APP_SIZE_LIMIT,
            r.dst + APP_SIZE_LIMIT == r.clear_end,
            r.src == self.app_start@[app_id as int],
            r.src + r.len == self.app_start@[app_id as int + 1],
    {
        let base_address = get_base_i(app_id);
        let src = self.app_start[app_id];
        let len = self.app_start[app_id + 1] - src;
        AppLoad { dst: base_address, clear_end: base_address + APP_SIZE_LIMIT, src: src, len: len }
    }
}

/// Loading every application, in order of their ids.
pub fn load_apps(app_manager: &AppManager) -> (r: Vec<AppLoad>)
    requires
        app_manager.num_app <= MAX_APP_NUM,
        forall|i: int| 0 <= i < app_manager.num_app ==> #[trigger] app_manager.image_in_order(i),
    ensures
        r@.len() == app_manager.num_app,
        forall|i: int| 0 <= i < app_manager.num_app ==> #[trigger] r@[i] == app_manager.load_spec(i),
{
    let mut loads: Vec<AppLoad> = Vec::new();
    for i in 0..app_manager.num_app
        invariant
            app_manager.num_app <= MAX_APP_NUM,
            forall|j: int| 0 <= j < app_manager.num_app ==> #[trigger] app_manager.image_in_order(j),
            loads@.len() == i,
            forall|j: int| 0 <= j < i ==> #[trigger] loads@[j] == app_manager.load_spec(j),
    {
        loads.push(app_manager.load_app(i));
    }
    loads
}

/// Loading application `i`, over all inputs: its whole image is copied, from
/// where the image starts to where the next one starts, to the start of its
/// own slot, and exactly that slot, `APP_SIZE_LIMIT` bytes, is zeroed first.
pub proof fn lemma_load_copies_whole_image(am: AppManager, i: int)
    requires
        0 <= i < MAX_APP_NUM,
        am.image_in_order(i),
    ensures
        am.load_spec(i).src == am.app_start@[i],
        am.load_spec(i).src + am.load_spec(i).len == am.app_start@[i + 1],
        am.load_spec(i).dst == APP_BASE_ADDRESS + i * APP_SIZE_LIMIT,
        am.load_spec(i).clear_end == am.load_spec(i).dst + APP_SIZE_LIMIT,
{
}

} // verus!
