//! How a publisher comes by its mapping: it makes one, takes over one that is there, or makes
//! one anew after removing what was left behind.
use vstd::prelude::*;

use crate::layout::SHM_TOTAL;
use crate::names;
use crate::text;

verus! {

/// What coming by the mapping comes to next.
#[derive(Debug, Clone, Copy, PartialEq, Eq)]
pub enum OpenAsk {
    /// Make the mapping.
    Create,
    /// Blank the new mapping, write its header and register the publisher.
    Initialize,
    /// Open the mapping that is there.
    OpenExisting,
    /// See whether its header is that of a bus of this layout.
    Validate,
    /// Take the write lock, and register the publisher in it.
    Claim,
    /// Open the mapping as its owner, and release it.
    ReleaseByOwner,
    /// Remove the file behind the mapping.
    RemoveFile,
    Done,
}

/// What came of it.
#[derive(Debug, Clone, Copy, PartialEq, Eq)]
pub enum OpenEvent {
    Succeeded,
    /// The mapping is there, and so long.
    Opened { len: usize },
    /// There was nothing to remove.
    Absent,
    Failed,
}

/// The course of coming by the mapping, in mathematical terms.
#[verifier::ext_equal]
pub struct OpenState {
    pub name: Seq<char>,
    pub ask: OpenAsk,
    /// Whether what was left behind has been removed.
    pub again: bool,
    /// Why the mapping could not be made.
    pub create_err: Seq<char>,
    /// Why the mapping that is there could not be taken over.
    pub reuse_err: Seq<char>,
    /// Why the mapping could not be released, if it could not.
    pub release_err: Option<Seq<char>>,
    /// What was done to remove it.
    pub action: Seq<char>,
    /// Why all of it failed, if it did.
    pub failure: Option<Seq<char>>,
}

/// The mapping could not be made.
pub open spec fn create_failed(name: Seq<char>, detail: Seq<char>) -> Seq<char> {
    "创建共享内存 '"@ + name + "' 失败: "@ + detail
}

/// The mapping is there and could not be opened.
pub open spec fn open_failed(name: Seq<char>, detail: Seq<char>) -> Seq<char> {
    "共享内存 '"@ + name + "' 已存在，但打开失败: "@ + detail
}

/// The mapping is there and is too short.
pub open spec fn too_short(name: Seq<char>, len: nat) -> Seq<char> {
    "共享内存 '"@ + name + "' 已存在，但大小不足: actual="@ + text::decimal(len) + ", expected="@
        + text::decimal(SHM_TOTAL as nat) + "。这通常表示旧 layout 版本的残留对象。"@
}

/// The mapping is there and is no bus of this layout.
pub open spec fn incompatible(name: Seq<char>, detail: Seq<char>) -> Seq<char> {
    "共享内存 '"@ + name + "' 已存在，但布局不兼容或无法复用: "@ + detail + "。"@
}

/// The mapping could not be opened as its owner.
pub open spec fn release_failed(detail: Seq<char>) -> Seq<char> {
    "通过 os_id 打开残留映射失败: "@ + detail
}

/// What was done about a mapping that was released, removed or both.
pub open spec fn cleanup_action(released: bool, removed: bool) -> Seq<char> {
    if released && removed {
        "已通过 shared_memory owner drop 释放残留映射"@ + "；"@ + "已删除本地共享内存缓存文件"@
    } else if released {
        "已通过 shared_memory owner drop 释放残留映射"@
    } else {
        "已删除本地共享内存缓存文件"@
    }
}

/// Nothing of what was left behind could be removed.
pub open spec fn cleanup_failed(name: Seq<char>, release_err: Seq<char>, remove_err: Option<Seq<char>>) -> Seq<char> {
    "未能移除共享内存 '"@ + name + "' 的残留对象/缓存文件: "@ + release_err + (match remove_err {
        Some(detail) => "；"@ + detail,
        None => Seq::<char>::empty(),
    })
}

/// Making, taking over and cleaning up all failed.
pub open spec fn all_failed(
    name: Seq<char>,
    create_err: Seq<char>,
    reuse_err: Seq<char>,
    cleanup_err: Seq<char>,
) -> Seq<char> {
    "共享内存 '"@ + name + "' 创建失败且复用失败；清理残留对象/缓存文件也失败。create_err="@ + create_err
        + "; reuse_err="@ + reuse_err + "; cleanup_err="@ + cleanup_err
}

/// Making the mapping failed again after cleaning up.
pub open spec fn recreate_failed(
    name: Seq<char>,
    action: Seq<char>,
    create_err: Seq<char>,
    reuse_err: Seq<char>,
    recreate_err: Seq<char>,
) -> Seq<char> {
    "共享内存 '"@ + name + "' 创建失败且复用失败；"@ + action + "，但重新创建仍失败。create_err="@ + create_err
        + "; reuse_err="@ + reuse_err + "; recreate_err="@ + recreate_err
}

impl OpenState {
    /// The course before its first step.
    pub open spec fn start(name: Seq<char>) -> OpenState {
        OpenState {
            name,
            ask: OpenAsk::Create,
            again: false,
            create_err: seq![],
            reuse_err: seq![],
            release_err: None,
            action: seq![],
            failure: None,
        }
    }

    /// The end, with an error.
    pub open spec fn fail(self, failure: Seq<char>) -> OpenState {
        OpenState { ask: OpenAsk::Done, failure: Some(failure), ..self }
    }

    /// The end, with an error in making the mapping.
    pub open spec fn fail_to_create(self, failure: Seq<char>) -> OpenState {
        if self.again {
            self.fail(recreate_failed(self.name, self.action, self.create_err, self.reuse_err, failure))
        } else {
            self.fail(failure)
        }
    }

    /// Cleaning up, since the mapping that is there could not be taken over.
    pub open spec fn clean_up(self, reuse_err: Seq<char>) -> OpenState {
        OpenState { ask: OpenAsk::ReleaseByOwner, reuse_err, ..self }
    }

    /// What follows removing the file.
    pub open spec fn after_removing(self, event: OpenEvent, error: Seq<char>) -> OpenState {
        let removed = event == OpenEvent::Succeeded;
        if self.release_err is None || removed {
            OpenState {
                ask: OpenAsk::Create,
                again: true,
                action: cleanup_action(self.release_err is None, removed),
                ..self
            }
        } else {
            let remove_err = if event == OpenEvent::Failed {
                Some(error)
            } else {
                None
            };
            self.fail(
                all_failed(
                    self.name,
                    self.create_err,
                    self.reuse_err,
                    cleanup_failed(self.name, self.release_err->0, remove_err),
                ),
            )
        }
    }

    /// What follows what came of a step; `error` is the error behind a failure.
    pub open spec fn next(self, event: OpenEvent, error: Seq<char>) -> OpenState {
        match (self.ask, event) {
            (OpenAsk::Create, OpenEvent::Succeeded) => OpenState { ask: OpenAsk::Initialize, ..self },
            (OpenAsk::Create, OpenEvent::Failed) => if !self.again && names::tells_already_exists(error) {
                OpenState { ask: OpenAsk::OpenExisting, create_err: error, ..self }
            } else {
                self.fail_to_create(create_failed(self.name, error))
            },
            (OpenAsk::Initialize, OpenEvent::Succeeded) => OpenState { ask: OpenAsk::Done, ..self },
            (OpenAsk::Initialize, OpenEvent::Failed) => self.fail_to_create(error),
            (OpenAsk::OpenExisting, OpenEvent::Opened { len }) => if len < SHM_TOTAL {
                self.fail(too_short(self.name, len as nat))
            } else {
                OpenState { ask: OpenAsk::Validate, ..self }
            },
            (OpenAsk::OpenExisting, OpenEvent::Failed) => self.clean_up(open_failed(self.name, error)),
            (OpenAsk::Validate, OpenEvent::Succeeded) => OpenState { ask: OpenAsk::Claim, ..self },
            (OpenAsk::Validate, OpenEvent::Failed) => self.fail(incompatible(self.name, error)),
            (OpenAsk::Claim, OpenEvent::Succeeded) => OpenState { ask: OpenAsk::Done, ..self },
            (OpenAsk::Claim, OpenEvent::Failed) => self.clean_up(error),
            (OpenAsk::ReleaseByOwner, OpenEvent::Succeeded) => OpenState { ask: OpenAsk::RemoveFile, ..self },
            (OpenAsk::ReleaseByOwner, OpenEvent::Failed) => OpenState {
                ask: OpenAsk::RemoveFile,
                release_err: Some(release_failed(error)),
                ..self
            },
            (OpenAsk::RemoveFile, OpenEvent::Succeeded)
            | (OpenAsk::RemoveFile, OpenEvent::Absent)
            | (OpenAsk::RemoveFile, OpenEvent::Failed) => self.after_removing(event, error),
            _ => self,
        }
    }

    /// Whether an event answers what was asked for.
    pub open spec fn answers(self, event: OpenEvent) -> bool {
        match self.ask {
            OpenAsk::OpenExisting => event is Opened || event is Failed,
            OpenAsk::RemoveFile => event !is Opened,
            OpenAsk::Done => false,
            _ => event is Succeeded || event is Failed,
        }
    }

    /// How many steps there are to the end at most.
    pub open spec fn steps_left(self) -> nat {
        let last: nat = match self.ask {
            OpenAsk::Create => 2,
            OpenAsk::Initialize => 1,
            _ => 0,
        };
        if self.again {
            last
        } else {
            match self.ask {
                OpenAsk::Create => 8,
                OpenAsk::Initialize => 1,
                OpenAsk::OpenExisting => 7,
                OpenAsk::Validate => 6,
                OpenAsk::Claim => 5,
                OpenAsk::ReleaseByOwner => 4,
                OpenAsk::RemoveFile => 3,
                OpenAsk::Done => 0,
            }
        }
    }

    /// What a course can be: it is made anew once at most, and only cleans up before that.
    pub open spec fn wf(self) -> bool {
        &&& self.again ==> self.ask == OpenAsk::Create || self.ask == OpenAsk::Initialize || self.ask == OpenAsk::Done
        &&& self.failure is Some ==> self.ask == OpenAsk::Done
    }
}

/// The course of coming by the mapping.
#[derive(Debug)]
pub struct ShmemOpen {
    name: String,
    ask: OpenAsk,
    again: bool,
    create_err: String,
    reuse_err: String,
    release_err: Option<String>,
    action: String,
    failure: Option<String>,
}

spec fn text_of(text: Option<String>) -> Option<Seq<char>> {
    match text {
        Some(text) => Some(text@),
        None => None,
    }
}

impl View for ShmemOpen {
    type V = OpenState;

    closed spec fn view(&self) -> OpenState {
        OpenState {
            name: self.name@,
            ask: self.ask,
            again: self.again,
            create_err: self.create_err@,
            reuse_err: self.reuse_err@,
            release_err: text_of(self.release_err),
            action: self.action@,
            failure: text_of(self.failure),
        }
    }
}

fn create_failed_message(name: &str, detail: &str) -> (message: String)
    ensures
        message@ == create_failed(name@, detail@),
{
    let mut out = String::from_str("创建共享内存 '");
    out.append(name);
    out.append("' 失败: ");
    out.append(detail);
    out
}

fn open_failed_message(name: &str, detail: &str) -> (message: String)
    ensures
        message@ == open_failed(name@, detail@),
{
    let mut out = String::from_str("共享内存 '");
    out.append(name);
    out.append("' 已存在，但打开失败: ");
    out.append(detail);
    out
}

fn too_short_message(name: &str, len: usize) -> (message: String)
    ensures
        message@ == too_short(name@, len as nat),
{
    let mut out = String::from_str("共享内存 '");
    out.append(name);
    out.append("' 已存在，但大小不足: actual=");
    text::push_decimal(&mut out, len as u64);
    out.append(", expected=");
    text::push_decimal(&mut out, SHM_TOTAL as u64);
    out.append("。这通常表示旧 layout 版本的残留对象。");
    out
}

fn incompatible_message(name: &str, detail: &str) -> (message: String)
    ensures
        message@ == incompatible(name@, detail@),
{
    let mut out = String::from_str("共享内存 '");
    out.append(name);
    out.append("' 已存在，但布局不兼容或无法复用: ");
    out.append(detail);
    out.append("。");
    out
}

fn cleanup_action_message(released: bool, removed: bool) -> (message: String)
    ensures
        message@ == cleanup_action(released, removed),
{
    if released {
        let mut out = String::from_str("已通过 shared_memory owner drop 释放残留映射");
        if removed {
            out.append("；");
            out.append("已删除本地共享内存缓存文件");
        }
        out
    } else {
        String::from_str("已删除本地共享内存缓存文件")
    }
}

/// Why the file behind a mapping could not be removed.
pub fn remove_failed_message(path: &str, detail: &str) -> (message: String)
    ensures
        message@ == "删除本地共享内存缓存文件 '"@ + path@ + "' 失败: "@ + detail@,
{
    let mut out = String::from_str("删除本地共享内存缓存文件 '");
    out.append(path);
    out.append("' 失败: ");
    out.append(detail);
    out
}

impl ShmemOpen {
    /// The course before its first step.
    pub fn create_shmem(shm_name: &str) -> (open: ShmemOpen)
        ensures
            open@ == OpenState::start(shm_name@),
            open@.wf(),
    {
        let open = ShmemOpen {
            name: shm_name.to_owned(),
            ask: OpenAsk::Create,
            again: false,
            create_err: String::new(),
            reuse_err: String::new(),
            release_err: None,
            action: String::new(),
            failure: None,
        };
        assert(open@ =~= OpenState::start(shm_name@));
        open
    }

    /// What is asked for.
    pub fn ask(&self) -> (ask: OpenAsk)
        ensures
            ask == self@.ask,
    {
        self.ask
    }

    /// Why all of it failed, if it did.
    pub fn into_result(self) -> (result: Result<(), String>)
        ensures
            match self@.failure {
                Some(failure) => result is Err && result->Err_0@ == failure,
                None => result is Ok,
            },
    {
        match self.failure {
            Some(failure) => Err(failure),
            None => Ok(()),
        }
    }

    fn fail(&mut self, failure: String)
        ensures
            final(self)@ == old(self)@.fail(failure@),
    {
        self.ask = OpenAsk::Done;
        self.failure = Some(failure);
    }

    fn fail_to_create(&mut self, failure: String)
        ensures
            final(self)@ == old(self)@.fail_to_create(failure@),
    {
        if self.again {
            let mut out = String::from_str("共享内存 '");
            out.append(self.name.as_str());
            out.append("' 创建失败且复用失败；");
            out.append(self.action.as_str());
            out.append("，但重新创建仍失败。create_err=");
            out.append(self.create_err.as_str());
            out.append("; reuse_err=");
            out.append(self.reuse_err.as_str());
            out.append("; recreate_err=");
            out.append(failure.as_str());
            self.fail(out);
        } else {
            self.fail(failure);
        }
    }

    fn clean_up(&mut self, reuse_err: String)
        ensures
            final(self)@ == old(self)@.clean_up(reuse_err@),
    {
        self.ask = OpenAsk::ReleaseByOwner;
        self.reuse_err = reuse_err;
    }

    fn after_removing(&mut self, event: OpenEvent, error: &str)
        ensures
            final(self)@ == old(self)@.after_removing(event, error@),
    {
        let removed: bool = matches!(event, OpenEvent::Succeeded);
        let mut out = String::from_str("共享内存 '");
        out.append(self.name.as_str());
        out.append("' 创建失败且复用失败；清理残留对象/缓存文件也失败。create_err=");
        out.append(self.create_err.as_str());
        out.append("; reuse_err=");
        out.append(self.reuse_err.as_str());
        out.append("; cleanup_err=");
        let mut cleanup_err = String::from_str("未能移除共享内存 '");
        cleanup_err.append(self.name.as_str());
        cleanup_err.append("' 的残留对象/缓存文件: ");
        match &self.release_err {
            Some(release_err) if !removed => {
                cleanup_err.append(release_err.as_str());
                if matches!(event, OpenEvent::Failed) {
                    let mut tail = String::from_str("；");
                    tail.append(error);
                    cleanup_err.append(tail.as_str());
                } else {
                    assert(cleanup_err@ + Seq::<char>::empty() =~= cleanup_err@);
                }
                out.append(cleanup_err.as_str());
                self.fail(out);
            },
            _ => {
                let released: bool = self.release_err.is_none();
                self.ask = OpenAsk::Create;
                self.again = true;
                self.action = cleanup_action_message(released, removed);
            },
        }
    }

    /// Takes what came of a step; `error` is the error behind a failure.
    pub fn step(&mut self, event: OpenEvent, error: &str)
        requires
            old(self)@.wf(),
        ensures
            final(self)@ == old(self)@.next(event, error@),
            final(self)@.wf(),
    {
        match (self.ask, event) {
            (OpenAsk::Create, OpenEvent::Succeeded) => {
                self.ask = OpenAsk::Initialize;
            },
            (OpenAsk::Create, OpenEvent::Failed) => {
                if !self.again && names::is_already_exists_error(error) {
                    self.ask = OpenAsk::OpenExisting;
                    self.create_err = error.to_owned();
                } else {
                    let failure = create_failed_message(self.name.as_str(), error);
                    self.fail_to_create(failure);
                }
            },
            (OpenAsk::Initialize, OpenEvent::Succeeded) => {
                self.ask = OpenAsk::Done;
            },
            (OpenAsk::Initialize, OpenEvent::Failed) => {
                self.fail_to_create(error.to_owned());
            },
            (OpenAsk::OpenExisting, OpenEvent::Opened { len }) => {
                if len < SHM_TOTAL {
                    let failure = too_short_message(self.name.as_str(), len);
                    self.fail(failure);
                } else {
                    self.ask = OpenAsk::Validate;
                }
            },
            (OpenAsk::OpenExisting, OpenEvent::Failed) => {
                let reuse_err = open_failed_message(self.name.as_str(), error);
                self.clean_up(reuse_err);
            },
            (OpenAsk::Validate, OpenEvent::Succeeded) => {
                self.ask = OpenAsk::Claim;
            },
            (OpenAsk::Validate, OpenEvent::Failed) => {
                let failure = incompatible_message(self.name.as_str(), error);
                self.fail(failure);
            },
            (OpenAsk::Claim, OpenEvent::Succeeded) => {
                self.ask = OpenAsk::Done;
            },
            (OpenAsk::Claim, OpenEvent::Failed) => {
                self.clean_up(error.to_owned());
            },
            (OpenAsk::ReleaseByOwner, OpenEvent::Succeeded) => {
                self.ask = OpenAsk::RemoveFile;
            },
            (OpenAsk::ReleaseByOwner, OpenEvent::Failed) => {
                let mut release_err = String::from_str("通过 os_id 打开残留映射失败: ");
                release_err.append(error);
                self.ask = OpenAsk::RemoveFile;
                self.release_err = Some(release_err);
            },
            (OpenAsk::RemoveFile, OpenEvent::Succeeded)
            | (OpenAsk::RemoveFile, OpenEvent::Absent)
            | (OpenAsk::RemoveFile, OpenEvent::Failed) => {
                self.after_removing(event, error);
            },
            _ => {},
        }
    }
}

/// Law: coming by the mapping ends: each answer leaves fewer steps.
pub proof fn opening_ends(state: OpenState, event: OpenEvent, error: Seq<char>)
    requires
        state.wf(),
        state.answers(event),
    ensures
        state.next(event, error).wf(),
        state.next(event, error).steps_left() < state.steps_left(),
{
}

/// Law: a mapping that is too short or no bus of this layout is left alone: the outcome is an
/// error, and nothing is released or removed.
pub proof fn incompatible_bus_is_left_alone(state: OpenState, event: OpenEvent, error: Seq<char>)
    requires
        state.ask == OpenAsk::Validate && event == OpenEvent::Failed || state.ask == OpenAsk::OpenExisting && (
        event matches OpenEvent::Opened { len } && len < SHM_TOTAL),
    ensures
        state.next(event, error).ask == OpenAsk::Done,
        state.next(event, error).failure is Some,
{
}

/// Law: what is there is released and removed only after it could not be opened, or could not
/// be claimed though it is a bus of this layout.
pub proof fn cleaning_up_is_the_last_resort(state: OpenState, event: OpenEvent, error: Seq<char>)
    requires
        state.next(event, error).ask == OpenAsk::ReleaseByOwner,
        state.ask != OpenAsk::ReleaseByOwner,
    ensures
        event == OpenEvent::Failed,
        state.ask == OpenAsk::OpenExisting || state.ask == OpenAsk::Claim,
{
}

/// Law: a mapping is made anew only where one is there already.
pub proof fn other_failures_to_create_are_final(state: OpenState, error: Seq<char>)
    requires
        state.ask == OpenAsk::Create,
        !state.again,
        !names::tells_already_exists(error),
    ensures
        state.next(OpenEvent::Failed, error).ask == OpenAsk::Done,
        state.next(OpenEvent::Failed, error).failure == Some(create_failed(state.name, error)),
{
}

/// What opening the mapping for a subscriber comes to next.
#[derive(Debug, Clone, Copy, PartialEq, Eq)]
pub enum JoinAsk {
    /// Open the mapping.
    Open,
    /// Register the subscriber in it.
    Register,
    /// Read the number of the last event, and the epoch.
    ReadHeader,
    /// Release the entry in the client table again.
    Release,
    Done,
}

/// The course of opening the mapping for a subscriber.
#[derive(Debug, Clone, Copy, PartialEq, Eq)]
pub struct SubscriberOpen {
    pub ask: JoinAsk,
    /// Whether the subscriber is registered.
    pub registered: bool,
    /// Whether opening failed.
    pub failed: bool,
}

impl SubscriberOpen {
    /// The course before its first step.
    pub open spec fn start() -> SubscriberOpen {
        SubscriberOpen { ask: JoinAsk::Open, registered: false, failed: false }
    }

    /// What follows what came of a step.  A subscriber that cannot read the header gives its
    /// entry up again, whatever comes of that.
    pub open spec fn next(self, succeeded: bool) -> SubscriberOpen {
        match self.ask {
            JoinAsk::Open => if succeeded {
                SubscriberOpen { ask: JoinAsk::Register, ..self }
            } else {
                SubscriberOpen { ask: JoinAsk::Done, failed: true, ..self }
            },
            JoinAsk::Register => if succeeded {
                SubscriberOpen { ask: JoinAsk::ReadHeader, registered: true, ..self }
            } else {
                SubscriberOpen { ask: JoinAsk::Done, failed: true, ..self }
            },
            JoinAsk::ReadHeader => if succeeded {
                SubscriberOpen { ask: JoinAsk::Done, ..self }
            } else {
                SubscriberOpen { ask: JoinAsk::Release, failed: true, ..self }
            },
            JoinAsk::Release => SubscriberOpen { ask: JoinAsk::Done, registered: !succeeded, ..self },
            JoinAsk::Done => self,
        }
    }

    /// The course before its first step.
    pub fn open_shmem_and_header() -> (open: SubscriberOpen)
        ensures
            open == SubscriberOpen::start(),
    {
        SubscriberOpen { ask: JoinAsk::Open, registered: false, failed: false }
    }

    /// Takes what came of a step.
    pub fn step(&mut self, succeeded: bool)
        ensures
            *final(self) == old(self).next(succeeded),
    {
        match self.ask {
            JoinAsk::Open => {
                if succeeded {
                    self.ask = JoinAsk::Register;
                } else {
                    self.ask = JoinAsk::Done;
                    self.failed = true;
                }
            },
            JoinAsk::Register => {
                if succeeded {
                    self.ask = JoinAsk::ReadHeader;
                    self.registered = true;
                } else {
                    self.ask = JoinAsk::Done;
                    self.failed = true;
                }
            },
            JoinAsk::ReadHeader => {
                if succeeded {
                    self.ask = JoinAsk::Done;
                } else {
                    self.ask = JoinAsk::Release;
                    self.failed = true;
                }
            },
            JoinAsk::Release => {
                self.ask = JoinAsk::Done;
                self.registered = !succeeded;
            },
            JoinAsk::Done => {},
        }
    }

    /// The course after all of these steps.
    pub open spec fn run(self, outcomes: Seq<bool>) -> SubscriberOpen
        decreases outcomes.len(),
    {
        if outcomes.len() == 0 {
            self
        } else {
            self.run(outcomes.drop_last()).next(outcomes.last())
        }
    }
}

/// Law: opening for a subscriber ends after four steps at most.  Where it succeeds the
/// subscriber is registered; where it fails it is not, unless the entry could not be released.
pub proof fn failed_open_leaves_no_entry(outcomes: Seq<bool>)
    requires
        outcomes.len() == 4,
    ensures
        ({
            let end = SubscriberOpen::start().run(outcomes);
            &&& end.ask == JoinAsk::Done
            &&& end.failed <==> !(outcomes[0] && outcomes[1] && outcomes[2])
            &&& !end.failed ==> end.registered
            &&& end.failed && end.registered ==> outcomes[0] && outcomes[1] && !outcomes[3]
        }),
{
    reveal_with_fuel(SubscriberOpen::run, 5);
    assert(outcomes.drop_last().drop_last().last() == outcomes[1]);
    assert(outcomes.drop_last().drop_last().drop_last().last() == outcomes[0]);
}

/// Law: the way to a mapping.  A new one is initialized; one that is there already is opened,
/// validated and claimed, in this order; one that could not be taken over is released, then its
/// file removed, whatever came of the release; and only where either did something is the
/// mapping made once more.
pub proof fn way_to_a_mapping(state: OpenState, event: OpenEvent, error: Seq<char>)
    requires
        state.wf(),
        state.answers(event),
    ensures
        ({
            let n = state.next(event, error);
            let good = event == OpenEvent::Succeeded;
            &&& state.ask == OpenAsk::Create && good ==> n == (OpenState { ask: OpenAsk::Initialize, ..state })
            &&& state.ask == OpenAsk::Create && !good ==> n.ask == (if !state.again && names::tells_already_exists(
                error,
            ) {
                OpenAsk::OpenExisting
            } else {
                OpenAsk::Done
            })
            &&& state.ask == OpenAsk::Initialize ==> n.ask == OpenAsk::Done && (n.failure is Some <==> !good)
            &&& state.ask == OpenAsk::OpenExisting ==> match event {
                OpenEvent::Opened { len } => n.ask == (if len < 67_379_264 {
                    OpenAsk::Done
                } else {
                    OpenAsk::Validate
                }),
                _ => n.ask == OpenAsk::ReleaseByOwner,
            }
            &&& state.ask == OpenAsk::Validate ==> n.ask == (if good {
                OpenAsk::Claim
            } else {
                OpenAsk::Done
            })
            &&& state.ask == OpenAsk::Claim && good ==> n.ask == OpenAsk::Done && n.failure is None
            &&& state.ask == OpenAsk::Claim && !good ==> n.ask == OpenAsk::ReleaseByOwner
            &&& state.ask == OpenAsk::ReleaseByOwner ==> n.ask == OpenAsk::RemoveFile
            &&& state.ask == OpenAsk::ReleaseByOwner && good ==> n.release_err == state.release_err
            &&& state.ask == OpenAsk::ReleaseByOwner && !good ==> n.release_err is Some
            &&& state.ask == OpenAsk::RemoveFile ==> n.ask == (if state.release_err is None || good {
                OpenAsk::Create
            } else {
                OpenAsk::Done
            })
            &&& n.again == (state.again || state.ask == OpenAsk::RemoveFile && n.ask == OpenAsk::Create)
        }),
{
}

/// Law: a mapping is had exactly by initializing a new one or claiming one that is there; every
/// other end is a failure.
pub proof fn mapping_is_had_or_failure_told(state: OpenState, event: OpenEvent, error: Seq<char>)
    requires
        state.wf(),
        state.answers(event),
        state.next(event, error).ask == OpenAsk::Done,
    ensures
        state.next(event, error).failure is None <==> event == OpenEvent::Succeeded && (state.ask
            == OpenAsk::Initialize || state.ask == OpenAsk::Claim),
{
}

/// Law: nothing that was found out on the way is forgotten: the name, the error of the first try
/// and the error of the takeover stay until the end.
pub proof fn errors_on_the_way_are_kept(state: OpenState, event: OpenEvent, error: Seq<char>)
    requires
        state.wf(),
        state.answers(event),
    ensures
        ({
            let n = state.next(event, error);
            &&& n.name == state.name
            &&& state.ask == OpenAsk::Create && n.ask == OpenAsk::OpenExisting ==> n.create_err == error
            &&& !(state.ask == OpenAsk::Create && n.ask == OpenAsk::OpenExisting) ==> n.create_err
                == state.create_err
            &&& state.ask == OpenAsk::Claim && event == OpenEvent::Failed ==> n.reuse_err == error
            &&& state.ask == OpenAsk::OpenExisting && event == OpenEvent::Failed ==> n.reuse_err
                == "共享内存 '"@ + state.name + "' 已存在，但打开失败: "@ + error
            &&& state.ask != OpenAsk::Claim && state.ask != OpenAsk::OpenExisting ==> n.reuse_err == state.reuse_err
            &&& state.ask == OpenAsk::ReleaseByOwner && event == OpenEvent::Failed ==> n.release_err == Some(
                "通过 os_id 打开残留映射失败: "@ + error,
            )
        }),
{
}

/// Law: a single failure is told in its own words.
pub proof fn single_failures_are_told(state: OpenState, event: OpenEvent, error: Seq<char>)
    requires
        state.wf(),
        state.answers(event),
        !state.again,
    ensures
        ({
            let n = state.next(event, error);
            &&& state.ask == OpenAsk::Create && event == OpenEvent::Failed && n.ask == OpenAsk::Done ==> n.failure
                == Some("创建共享内存 '"@ + state.name + "' 失败: "@ + error)
            &&& state.ask == OpenAsk::Initialize && event == OpenEvent::Failed ==> n.failure == Some(error)
            &&& match event {
                OpenEvent::Opened { len } => len < 67_379_264 && state.ask == OpenAsk::OpenExisting ==> n.failure
                    == Some(
                    "共享内存 '"@ + state.name + "' 已存在，但大小不足: actual="@ + text::decimal(len as nat)
                        + ", expected="@ + text::decimal(67_379_264) + "。这通常表示旧 layout 版本的残留对象。"@,
                ),
                _ => true,
            }
            &&& state.ask == OpenAsk::Validate && event == OpenEvent::Failed ==> n.failure == Some(
                "共享内存 '"@ + state.name + "' 已存在，但布局不兼容或无法复用: "@ + error + "。"@,
            )
        }),
{
}

/// Law: where everything failed, the error tells every failure on the way: that of making the
/// mapping, of taking it over, of releasing it, and of removing its file or of making it anew.
pub proof fn every_failure_is_told(state: OpenState, event: OpenEvent, error: Seq<char>)
    requires
        state.wf(),
        state.answers(event),
        state.next(event, error).ask == OpenAsk::Done,
        state.ask == OpenAsk::RemoveFile || state.again && event == OpenEvent::Failed,
    ensures
        ({
            let failure = state.next(event, error).failure->0;
            &&& state.next(event, error).failure is Some
            &&& text::stands_in(failure, state.name)
            &&& text::stands_in(failure, state.create_err)
            &&& text::stands_in(failure, state.reuse_err)
            &&& event == OpenEvent::Failed ==> text::stands_in(failure, error)
            &&& state.ask == OpenAsk::RemoveFile ==> text::stands_in(failure, state.release_err->0)
            &&& state.again ==> text::stands_in(failure, state.action)
        }),
{
    let name = state.name;
    let create_err = state.create_err;
    let reuse_err = state.reuse_err;
    if state.ask == OpenAsk::RemoveFile {
        let release_err = state.release_err->0;
        let w1 = "共享内存 '"@ + name;
        let w2 = w1 + "' 创建失败且复用失败；清理残留对象/缓存文件也失败。create_err="@;
        let w3 = w2 + create_err;
        let w4 = w3 + "; reuse_err="@;
        let w5 = w4 + reuse_err;
        let w6 = w5 + "; cleanup_err="@;
        let c1 = "未能移除共享内存 '"@ + name + "' 的残留对象/缓存文件: "@;
        let c2 = c1 + release_err;
        let tail = if event == OpenEvent::Failed {
            "；"@ + error
        } else {
            Seq::<char>::empty()
        };
        text::lemma_stands_at_end("共享内存 '"@, name);
        text::lemma_stands_before(w1, name, "' 创建失败且复用失败；清理残留对象/缓存文件也失败。create_err="@);
        text::lemma_stands_before(w2, name, create_err);
        text::lemma_stands_before(w3, name, "; reuse_err="@);
        text::lemma_stands_before(w4, name, reuse_err);
        text::lemma_stands_before(w5, name, "; cleanup_err="@);
        text::lemma_stands_before(w6, name, c2 + tail);
        text::lemma_stands_at_end(w2, create_err);
        text::lemma_stands_before(w3, create_err, "; reuse_err="@);
        text::lemma_stands_before(w4, create_err, reuse_err);
        text::lemma_stands_before(w5, create_err, "; cleanup_err="@);
        text::lemma_stands_before(w6, create_err, c2 + tail);
        text::lemma_stands_at_end(w4, reuse_err);
        text::lemma_stands_before(w5, reuse_err, "; cleanup_err="@);
        text::lemma_stands_before(w6, reuse_err, c2 + tail);
        text::lemma_stands_at_end(c1, release_err);
        text::lemma_stands_before(c2, release_err, tail);
        text::lemma_stands_behind(w6, c2 + tail, release_err);
        if event == OpenEvent::Failed {
            text::lemma_stands_at_end("；"@, error);
            text::lemma_stands_behind(c2, tail, error);
            text::lemma_stands_behind(w6, c2 + tail, error);
        }
    } else {
        let action = state.action;
        let w1 = "共享内存 '"@ + name;
        let w2 = w1 + "' 创建失败且复用失败；"@;
        let w3 = w2 + action;
        let w4 = w3 + "，但重新创建仍失败。create_err="@;
        let w5 = w4 + create_err;
        let w6 = w5 + "; reuse_err="@;
        let w7 = w6 + reuse_err;
        let w8 = w7 + "; recreate_err="@;
        let last = if state.ask == OpenAsk::Create {
            create_failed(name, error)
        } else {
            error
        };
        text::lemma_stands_at_end("共享内存 '"@, name);
        text::lemma_stands_before(w1, name, "' 创建失败且复用失败；"@);
        text::lemma_stands_before(w2, name, action);
        text::lemma_stands_before(w3, name, "，但重新创建仍失败。create_err="@);
        text::lemma_stands_before(w4, name, create_err);
        text::lemma_stands_before(w5, name, "; reuse_err="@);
        text::lemma_stands_before(w6, name, reuse_err);
        text::lemma_stands_before(w7, name, "; recreate_err="@);
        text::lemma_stands_before(w8, name, last);
        text::lemma_stands_at_end(w2, action);
        text::lemma_stands_before(w3, action, "，但重新创建仍失败。create_err="@);
        text::lemma_stands_before(w4, action, create_err);
        text::lemma_stands_before(w5, action, "; reuse_err="@);
        text::lemma_stands_before(w6, action, reuse_err);
        text::lemma_stands_before(w7, action, "; recreate_err="@);
        text::lemma_stands_before(w8, action, last);
        text::lemma_stands_at_end(w4, create_err);
        text::lemma_stands_before(w5, create_err, "; reuse_err="@);
        text::lemma_stands_before(w6, create_err, reuse_err);
        text::lemma_stands_before(w7, create_err, "; recreate_err="@);
        text::lemma_stands_before(w8, create_err, last);
        text::lemma_stands_at_end(w6, reuse_err);
        text::lemma_stands_before(w7, reuse_err, "; recreate_err="@);
        text::lemma_stands_before(w8, reuse_err, last);
        if state.ask == OpenAsk::Create {
            text::lemma_stands_at_end("创建共享内存 '"@ + name + "' 失败: "@, error);
            text::lemma_stands_behind(w8, last, error);
        } else {
            text::lemma_stands_at_end(w8, error);
        }
    }
}

/// Law: what was done to clean up is told: that the mapping was released exactly if it was, and
/// that its file was removed exactly if it was.
pub proof fn cleanup_tells_what_was_done(state: OpenState, event: OpenEvent, error: Seq<char>)
    requires
        state.ask == OpenAsk::RemoveFile,
        state.answers(event),
        state.next(event, error).ask == OpenAsk::Create,
    ensures
        ({
            let released = state.release_err is None;
            let removed = event == OpenEvent::Succeeded;
            let action = state.next(event, error).action;
            &&& released && !removed ==> action == "已通过 shared_memory owner drop 释放残留映射"@
            &&& !released && removed ==> action == "已删除本地共享内存缓存文件"@
            &&& released && removed ==> action == "已通过 shared_memory owner drop 释放残留映射"@ + "；"@
                + "已删除本地共享内存缓存文件"@
            &&& released || removed
        }),
{
}

/// Law: the course of a subscriber's open asks for each step only once the one before succeeded,
/// and for a release exactly where the header could not be read.
pub proof fn subscriber_opens_step_by_step(open: SubscriberOpen, succeeded: bool)
    ensures
        ({
            let n = open.next(succeeded);
            &&& SubscriberOpen::start().ask == JoinAsk::Open && !SubscriberOpen::start().failed
            &&& n.ask == JoinAsk::Register && open.ask != JoinAsk::Register ==> open.ask == JoinAsk::Open && succeeded
            &&& n.ask == JoinAsk::ReadHeader && open.ask != JoinAsk::ReadHeader ==> open.ask == JoinAsk::Register
                && succeeded
            &&& open.ask != JoinAsk::Release ==> (n.ask == JoinAsk::Release <==> open.ask == JoinAsk::ReadHeader
                && !succeeded)
            &&& open.ask == JoinAsk::Register ==> n.registered == (open.registered || succeeded)
            &&& open.ask == JoinAsk::Done ==> n == open
        }),
{
}

/// Law: a course begins by making the mapping, with nothing found out yet.
pub proof fn opening_begins_with_making(name: Seq<char>)
    ensures
        ({
            let start = OpenState::start(name);
            &&& start.ask == OpenAsk::Create && start.name == name
            &&& !start.again && start.release_err is None && start.failure is None
        }),
{
}

} // verus!
