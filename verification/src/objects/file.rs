//! File object (class 0x37). Upload (device to scanner) only.

use vstd::prelude::*;
use vstd::std_specs::convert::FromSpecImpl;
use vstd::string::*;

use crate::cip::{EPath, EPathView, GeneralStatusCode, MessageRouterResponse, SegmentSize, ServiceCode};
use crate::eip::ItemView;
use crate::error::{Error, Fault, Result};
use crate::message_router::{answered, read_answered, MessageRouter};
use crate::session::{exchange_error, Session};
use crate::text::{hex, push_dec, push_hex};
use crate::wire::{from_le32, try_get_u32_le, try_get_u8, try_get_vec};

verus! {

/// File object class ID.
pub const CLASS_ID: u16 = 0x37;
/// The largest transfer size the scanner asks for.
pub const MAX_TRANSFER_SIZE: u8 = 255;
const STATE_ATTRIBUTE: u16 = 1;

impl ServiceCode {
    pub const INITIATE_UPLOAD: u8 = 0x4B;
    pub const UPLOAD_TRANSFER: u8 = 0x4F;
}

/// File object states.
#[derive(Clone, Copy, PartialEq, Eq, Structural, Hash, PartialOrd, Ord, Default, Debug)]
pub struct FileObjectStateCode(pub u8);

/// The constants are the wire values: `FileObjectStateCode(FileObjectStateCode::X)` is the code `X`.
impl FileObjectStateCode {
    pub const NONEXISTENT: u8 = 0;
    pub const FILE_EMPTY: u8 = 1;
    pub const FILE_LOADED: u8 = 2;
    pub const TRANSFER_UPLOAD_INITIATED: u8 = 3;
    pub const TRANSFER_DOWNLOAD_INITIATED: u8 = 4;
    pub const TRANSFER_UPLOAD_IN_PROGRESS: u8 = 5;
    pub const TRANSFER_DOWNLOAD_IN_PROGRESS: u8 = 6;
    pub const UNKNOWN: u8 = 255;

    /// The name of a code this crate knows.
    pub open spec fn name_of(v: u8) -> Option<&'static str> {
        match v {
            0 => Some("NONEXISTENT"),
            1 => Some("FILE_EMPTY"),
            2 => Some("FILE_LOADED"),
            3 => Some("TRANSFER_UPLOAD_INITIATED"),
            4 => Some("TRANSFER_DOWNLOAD_INITIATED"),
            5 => Some("TRANSFER_UPLOAD_IN_PROGRESS"),
            6 => Some("TRANSFER_DOWNLOAD_IN_PROGRESS"),
            255 => Some("UNKNOWN"),
            _ => None,
        }
    }

    /// Name of the code, if it is one this crate knows.
    pub fn name(self) -> (r: Option<&'static str>)
        ensures
            r == Self::name_of(self.0),
    {
        match self.0 {
            0 => Some("NONEXISTENT"),
            1 => Some("FILE_EMPTY"),
            2 => Some("FILE_LOADED"),
            3 => Some("TRANSFER_UPLOAD_INITIATED"),
            4 => Some("TRANSFER_DOWNLOAD_INITIATED"),
            5 => Some("TRANSFER_UPLOAD_IN_PROGRESS"),
            6 => Some("TRANSFER_DOWNLOAD_IN_PROGRESS"),
            255 => Some("UNKNOWN"),
            _ => None,
        }
    }

    /// `NAME(0x..)` for a known code, `FileObjectStateCode(0x..)` otherwise.
    pub open spec fn display(self) -> Seq<char> {
        Self::display_name(self.0) + "(0x"@ + hex(self.0 as nat) + ")"@
    }

    /// The name of a known code, or the type's name.
    pub open spec fn display_name(v: u8) -> Seq<char> {
        match Self::name_of(v) {
            Some(n) => n@,
            None => "FileObjectStateCode"@,
        }
    }

    /// The code's name and value, e.g. `RED(0x1)`.
    pub fn to_string(&self) -> (r: String)
        ensures
            r@ == self.display(),
    {
        let ghost head = Self::display_name(self.0);
        let mut s = match self.name() {
            Some(n) => String::from_str(n),
            None => String::from_str("FileObjectStateCode"),
        };
        assert(s@ == head);
        s.append("(0x");
        push_hex(&mut s, self.0 as u64);
        assert(s@ == head + "(0x"@ + hex(self.0 as nat));
        s.append(")");
        assert(s@ =~= self.display());
        s
    }
}

impl From<u8> for FileObjectStateCode {
    fn from(v: u8) -> (r: Self) {
        Self(v)
    }
}

impl FromSpecImpl<u8> for FileObjectStateCode {
    open spec fn obeys_from_spec() -> bool {
        true
    }

    open spec fn from_spec(v: u8) -> Self {
        Self(v)
    }
}

impl From<FileObjectStateCode> for u8 {
    fn from(v: FileObjectStateCode) -> (r: u8) {
        v.0
    }
}

impl FromSpecImpl<FileObjectStateCode> for u8 {
    open spec fn obeys_from_spec() -> bool {
        true
    }

    open spec fn from_spec(v: FileObjectStateCode) -> Self {
        v.0
    }
}

/// Upload transfer packet types.
#[derive(Clone, Copy, PartialEq, Eq, Structural, Hash, PartialOrd, Ord, Default, Debug)]
pub struct TransferPacketType(pub u8);

/// The constants are the wire values: `TransferPacketType(TransferPacketType::X)` is the code `X`.
impl TransferPacketType {
    pub const FIRST: u8 = 0;
    pub const MIDDLE: u8 = 1;
    pub const LAST: u8 = 2;
    pub const ABORT: u8 = 3;
    pub const FIRST_AND_LAST: u8 = 4;

    /// The name of a code this crate knows.
    pub open spec fn name_of(v: u8) -> Option<&'static str> {
        match v {
            0 => Some("FIRST"),
            1 => Some("MIDDLE"),
            2 => Some("LAST"),
            3 => Some("ABORT"),
            4 => Some("FIRST_AND_LAST"),
            _ => None,
        }
    }

    /// Name of the code, if it is one this crate knows.
    pub fn name(self) -> (r: Option<&'static str>)
        ensures
            r == Self::name_of(self.0),
    {
        match self.0 {
            0 => Some("FIRST"),
            1 => Some("MIDDLE"),
            2 => Some("LAST"),
            3 => Some("ABORT"),
            4 => Some("FIRST_AND_LAST"),
            _ => None,
        }
    }

    /// `NAME(0x..)` for a known code, `TransferPacketType(0x..)` otherwise.
    pub open spec fn display(self) -> Seq<char> {
        Self::display_name(self.0) + "(0x"@ + hex(self.0 as nat) + ")"@
    }

    /// The name of a known code, or the type's name.
    pub open spec fn display_name(v: u8) -> Seq<char> {
        match Self::name_of(v) {
            Some(n) => n@,
            None => "TransferPacketType"@,
        }
    }

    /// The code's name and value, e.g. `RED(0x1)`.
    pub fn to_string(&self) -> (r: String)
        ensures
            r@ == self.display(),
    {
        let ghost head = Self::display_name(self.0);
        let mut s = match self.name() {
            Some(n) => String::from_str(n),
            None => String::from_str("TransferPacketType"),
        };
        assert(s@ == head);
        s.append("(0x");
        push_hex(&mut s, self.0 as u64);
        assert(s@ == head + "(0x"@ + hex(self.0 as nat));
        s.append(")");
        assert(s@ =~= self.display());
        s
    }
}

impl From<u8> for TransferPacketType {
    fn from(v: u8) -> (r: Self) {
        Self(v)
    }
}

impl FromSpecImpl<u8> for TransferPacketType {
    open spec fn obeys_from_spec() -> bool {
        true
    }

    open spec fn from_spec(v: u8) -> Self {
        Self(v)
    }
}

impl From<TransferPacketType> for u8 {
    fn from(v: TransferPacketType) -> (r: u8) {
        v.0
    }
}

impl FromSpecImpl<TransferPacketType> for u8 {
    open spec fn obeys_from_spec() -> bool {
        true
    }

    open spec fn from_spec(v: TransferPacketType) -> Self {
        v.0
    }
}

/// The state of a file object as the scanner tracks it.
pub ghost enum FileState {
    NonExistent,
    Empty,
    Loaded,
    UploadInProgress { file_size: u32, transfer_size: u8, transfer_number: u8, content: Seq<u8> },
}

#[derive(Debug)]
enum State {
    NonExistent,
    Empty,
    Loaded,
    UploadInProgress { file_size: u32, transfer_size: u8, transfer_number: u8, content: Vec<u8> },
}

impl State {
    spec fn view(&self) -> FileState {
        match self {
            State::NonExistent => FileState::NonExistent,
            State::Empty => FileState::Empty,
            State::Loaded => FileState::Loaded,
            State::UploadInProgress { file_size, transfer_size, transfer_number, content } => FileState::UploadInProgress {
                file_size: *file_size,
                transfer_size: *transfer_size,
                transfer_number: *transfer_number,
                content: content@,
            },
        }
    }

    fn code(&self) -> (r: FileObjectStateCode)
        ensures
            r.0 == state_code(self.view()),
    {
        match self {
            State::NonExistent => FileObjectStateCode(FileObjectStateCode::NONEXISTENT),
            State::Empty => FileObjectStateCode(FileObjectStateCode::FILE_EMPTY),
            State::Loaded => FileObjectStateCode(FileObjectStateCode::FILE_LOADED),
            State::UploadInProgress { .. } => FileObjectStateCode(FileObjectStateCode::TRANSFER_UPLOAD_IN_PROGRESS),
        }
    }
}

/// The state code of a state.
pub open spec fn state_code(s: FileState) -> u8 {
    match s {
        FileState::NonExistent => FileObjectStateCode::NONEXISTENT,
        FileState::Empty => FileObjectStateCode::FILE_EMPTY,
        FileState::Loaded => FileObjectStateCode::FILE_LOADED,
        FileState::UploadInProgress { .. } => FileObjectStateCode::TRANSFER_UPLOAD_IN_PROGRESS,
    }
}

/// The state a file object starts in from the state code the device gives:
/// a device that is mid-upload is treated as loaded, so the upload is
/// started over; codes other than these are not supported.
pub open spec fn initial_state(code: u8) -> Option<FileState> {
    if code == FileObjectStateCode::NONEXISTENT {
        Some(FileState::NonExistent)
    } else if code == FileObjectStateCode::FILE_EMPTY {
        Some(FileState::Empty)
    } else if code == FileObjectStateCode::FILE_LOADED || code == FileObjectStateCode::TRANSFER_UPLOAD_INITIATED
        || code == FileObjectStateCode::TRANSFER_UPLOAD_IN_PROGRESS {
        Some(FileState::Loaded)
    } else {
        None
    }
}

/// A file object: its instance, the router requests go through, its state,
/// and how the last upload ended (the status, and the file on success).
pub ghost struct FileObjectView {
    pub instance_id: u16,
    pub router: SegmentSize,
    pub state: FileState,
    pub outcome: Option<(GeneralStatusCode, Seq<u8>)>,
}

/// File object (class 0x37).
#[derive(Debug)]
pub struct FileObject {
    instance_id: u16,
    router: MessageRouter,
    state: State,
    outcome: Option<(GeneralStatusCode, Vec<u8>)>,
}

pub open spec fn outcome_view(o: Option<(GeneralStatusCode, Vec<u8>)>) -> Option<(GeneralStatusCode, Seq<u8>)> {
    match o {
        Some((s, d)) => Some((s, d@)),
        None => None,
    }
}

impl View for FileObject {
    type V = FileObjectView;

    closed spec fn view(&self) -> FileObjectView {
        FileObjectView {
            instance_id: self.instance_id,
            router: self.router@,
            state: self.state.view(),
            outcome: outcome_view(self.outcome),
        }
    }
}

/// The path of file object `instance`.
pub open spec fn file_path(instance: u16) -> EPathView {
    EPathView { class_id: CLASS_ID, instance_id: Some(instance), attribute_id: None }
}

/// `n + 1`, wrapping.
pub open spec fn next_u8(n: u8) -> u8 {
    if n == 255 { 0 } else { (n + 1) as u8 }
}

/// An upload ends: back to loaded, with the outcome: an invalid-parameter
/// status when `check_size` is asked and the content is not the announced
/// size, else the status with the content on success and nothing otherwise.
pub open spec fn finished(v: FileObjectView, status: GeneralStatusCode, check_size: bool) -> FileObjectView {
    match v.state {
        FileState::UploadInProgress { file_size, content, .. } => FileObjectView {
            state: FileState::Loaded,
            outcome: Some(
                if check_size && content.len() != file_size {
                    (GeneralStatusCode(GeneralStatusCode::INVALID_PARAMETER), seq![])
                } else if status.0 == GeneralStatusCode::SUCCESS {
                    (status, content)
                } else {
                    (status, seq![])
                },
            ),
            ..v
        },
        _ => v,
    }
}

/// What the reply to Initiate Upload does to a loaded object: a failure
/// ends the upload at once with its status; a success with the file size
/// (32 bits) and transfer size (8 bits) starts it at transfer 0. `None` when
/// the reply data is too short for those.
pub open spec fn after_initiate(v: FileObjectView, status: GeneralStatusCode, d: Seq<u8>) -> Option<FileObjectView> {
    if status.0 != GeneralStatusCode::SUCCESS {
        Some(FileObjectView { outcome: Some((status, seq![])), ..v })
    } else if d.len() < 5 {
        None
    } else {
        Some(
            FileObjectView {
                state: FileState::UploadInProgress {
                    file_size: from_le32(d),
                    transfer_size: d[4],
                    transfer_number: 0,
                    content: seq![],
                },
                ..v
            },
        )
    }
}

/// What the reply to Upload Transfer does during an upload, and what the
/// call returns: a failure status ends the upload with it; a reply without
/// its transfer number and packet type is truncated; a wrong transfer number
/// ends the upload with an invalid-parameter status; a first or middle
/// packet adds `transfer_size` bytes and moves to the next transfer; a last
/// packet adds all but its 16-bit checksum and ends the upload, checking the
/// size; any other packet type ends it with an invalid-reply status.
pub open spec fn after_transfer(v: FileObjectView, status: GeneralStatusCode, d: Seq<u8>) -> (
    core::result::Result<bool, Fault>,
    FileObjectView,
) {
    match v.state {
        FileState::UploadInProgress { file_size, transfer_size, transfer_number, content } => {
            if status.0 != GeneralStatusCode::SUCCESS {
                (Ok(false), finished(v, status, false))
            } else if d.len() < 2 {
                (Err(Fault::Truncated), v)
            } else if d[0] != transfer_number {
                (Ok(false), finished(v, GeneralStatusCode(GeneralStatusCode::INVALID_PARAMETER), false))
            } else if d[1] == TransferPacketType::FIRST || d[1] == TransferPacketType::MIDDLE {
                if d.len() - 2 < transfer_size {
                    (Err(Fault::Truncated), v)
                } else {
                    (
                        Ok(true),
                        FileObjectView {
                            state: FileState::UploadInProgress {
                                file_size,
                                transfer_size,
                                transfer_number: next_u8(transfer_number),
                                content: content + d.subrange(2, 2 + transfer_size),
                            },
                            ..v
                        },
                    )
                }
            } else if d[1] == TransferPacketType::LAST || d[1] == TransferPacketType::FIRST_AND_LAST {
                let len = if d.len() >= 4 { d.len() - 4 } else { 0 };
                let all = FileObjectView {
                    state: FileState::UploadInProgress {
                        file_size,
                        transfer_size,
                        transfer_number,
                        content: content + d.subrange(2, 2 + len),
                    },
                    ..v
                };
                (Ok(false), finished(all, GeneralStatusCode(GeneralStatusCode::SUCCESS), true))
            } else {
                (Err(Fault::Invalid), finished(v, GeneralStatusCode(GeneralStatusCode::INVALID_REPLY_RECEIVED), false))
            }
        },
        _ => (Ok(false), v),
    }
}

/// Where an upload of `v` starts from the reply `init` to Initiate Upload:
/// the object, with no outcome yet, after that reply.
pub open spec fn upload_start(v: FileObjectView, init: MessageRouterResponse) -> Option<FileObjectView> {
    after_initiate(FileObjectView { outcome: None, ..v }, init.general_status, init.data@)
}

/// The object after the Upload Transfer replies `rs`, applied in order from
/// `v`.
pub open spec fn after_transfers(v: FileObjectView, rs: Seq<MessageRouterResponse>) -> FileObjectView
    decreases rs.len(),
{
    if rs.len() == 0 {
        v
    } else {
        let u = after_transfers(v, rs.drop_last());
        after_transfer(u, rs.last().general_status, rs.last().data@).1
    }
}

/// Each of `rs` answered the Upload Transfer request that the upload, from
/// `v`, was waiting on: the one for its next transfer number.
pub open spec fn transfers_answered<S: Session + ?Sized>(
    session: &S,
    v: FileObjectView,
    rs: Seq<MessageRouterResponse>,
) -> bool
    decreases rs.len(),
{
    if rs.len() == 0 {
        true
    } else {
        let u = after_transfers(v, rs.drop_last());
        &&& transfers_answered(session, v, rs.drop_last())
        &&& u.state is UploadInProgress
        &&& answered(
            session,
            u.router,
            ServiceCode(ServiceCode::UPLOAD_TRANSFER),
            file_path(u.instance_id),
            seq![u.state->transfer_number],
            Seq::<ItemView>::empty(),
            rs.last(),
        )
    }
}

/// What an upload that ended with status `st` and file `d` returns: the file
/// on success; otherwise a `Cip` error with that status, or, when the upload
/// ended on a packet of an unknown type, the `InvalidPacket` error that
/// reports it.
pub open spec fn upload_result(st: GeneralStatusCode, d: Seq<u8>, r: Result<Vec<u8>>) -> bool {
    if st.0 == GeneralStatusCode::SUCCESS {
        r matches Ok(v) && v@ == d
    } else {
        ||| (r matches Err(Error::Cip { status, .. }) && status == st)
        ||| (r matches Err(Error::InvalidPacket(_)) && st.0 == GeneralStatusCode::INVALID_REPLY_RECEIVED)
    }
}

impl FileObject {
    /// A file object in the state that `code` gives (see [`initial_state`]).
    pub fn from_state_code(router: MessageRouter, instance_id: u16, code: FileObjectStateCode) -> (r: Result<Self>)
        ensures
            match initial_state(code.0) {
                None => r matches Err(e) && e is Unsupported,
                Some(s) => r matches Ok(f) && f@ == (FileObjectView {
                    instance_id,
                    router: router@,
                    state: s,
                    outcome: None,
                }),
            },
    {
        let state = if code.0 == FileObjectStateCode::NONEXISTENT {
            State::NonExistent
        } else if code.0 == FileObjectStateCode::FILE_EMPTY {
            State::Empty
        } else if code.0 == FileObjectStateCode::FILE_LOADED || code.0 == FileObjectStateCode::TRANSFER_UPLOAD_INITIATED
            || code.0 == FileObjectStateCode::TRANSFER_UPLOAD_IN_PROGRESS {
            State::Loaded
        } else {
            let mut msg = String::from_str("file object state ");
            msg.append(code.to_string().as_str());
            msg.append(" is not supported");
            return Err(Error::Unsupported(msg));
        };
        Ok(Self { instance_id, router, state, outcome: None })
    }

    /// Reads the object's state (attribute 1) from the device.
    pub fn new<S: Session + ?Sized>(session: &S, router: MessageRouter, instance_id: u16) -> (r: Result<Self>)
        ensures
            r matches Ok(f) ==> exists|resp: MessageRouterResponse|
                #[trigger] read_answered(session, router@, CLASS_ID, instance_id, 1, resp)
                    && resp.data@.len() >= 1 && initial_state(resp.data@[0]) == Some(f@.state) && f@.instance_id
                    == instance_id && f@.router == router@ && f@.outcome is None,
    {
        let mut context = String::from_str("read state of file object ");
        push_dec(&mut context, instance_id as u64);
        let data = match router.read_attribute(session, CLASS_ID, instance_id, STATE_ATTRIBUTE, context.as_str()) {
            Ok(d) => d,
            Err(e) => return Err(e),
        };
        let mut buf = data.as_slice();
        let code = match try_get_u8(&mut buf) {
            Ok(c) => FileObjectStateCode(c),
            Err(e) => return Err(e),
        };
        Self::from_state_code(router, instance_id, code)
    }

    pub fn instance_id(&self) -> (r: u16)
        ensures
            r == self@.instance_id,
    {
        self.instance_id
    }

    pub fn state(&self) -> (r: FileObjectStateCode)
        ensures
            r.0 == state_code(self@.state),
    {
        self.state.code()
    }

    /// How the last upload ended, taken out of the object: the status, and
    /// the file on success.
    pub fn take_outcome(&mut self) -> (r: Option<(GeneralStatusCode, Vec<u8>)>)
        ensures
            outcome_view(r) == old(self)@.outcome,
            final(self)@ == (FileObjectView { outcome: None, ..old(self)@ }),
    {
        let r = self.outcome.take();
        r
    }

    /// Applies the reply to Initiate Upload to a loaded object (see
    /// [`after_initiate`]).
    pub fn apply_initiate(&mut self, status: GeneralStatusCode, data: &[u8]) -> (r: Result<()>)
        ensures
            match after_initiate(old(self)@, status, data@) {
                None => (r matches Err(e) && e is Truncated) && final(self)@ == old(self)@,
                Some(v) => r is Ok && final(self)@ == v,
            },
    {
        if status.0 != GeneralStatusCode::SUCCESS {
            self.outcome = Some((status, Vec::new()));
            return Ok(());
        }
        let mut buf = data;
        let file_size = match try_get_u32_le(&mut buf) {
            Ok(v) => v,
            Err(e) => return Err(e),
        };
        let transfer_size = match try_get_u8(&mut buf) {
            Ok(v) => v,
            Err(e) => return Err(e),
        };
        assert(data@.skip(4)[0] == data@[4]);
        self.state = State::UploadInProgress { file_size, transfer_size, transfer_number: 0, content: Vec::new() };
        Ok(())
    }

    /// Starts an upload of a loaded file: Initiate Upload with the largest
    /// transfer size, then [`FileObject::apply_initiate`] on the reply. Call
    /// [`FileObject::handle_transfers`] until it returns false; the outcome
    /// is then in the object. Does nothing unless a file is loaded.
    pub fn begin_upload<S: Session + ?Sized>(&mut self, session: &S) -> (r: Result<()>)
        ensures
            !(old(self)@.state is Loaded) ==> r is Ok && final(self)@ == old(self)@,
            r is Err ==> final(self)@ == old(self)@,
            r matches Err(e) ==> exchange_error(e),
            old(self)@.state is Loaded && r is Ok ==> exists|resp: MessageRouterResponse|
                #[trigger] answered(
                    session,
                    old(self)@.router,
                    ServiceCode(ServiceCode::INITIATE_UPLOAD),
                    file_path(old(self)@.instance_id),
                    seq![MAX_TRANSFER_SIZE],
                    Seq::<ItemView>::empty(),
                    resp,
                ) && after_initiate(old(self)@, resp.general_status, resp.data@) == Some(final(self)@),
    {
        match self.state {
            State::Loaded => {},
            _ => return Ok(()),
        }
        let request: [u8; 1] = [MAX_TRANSFER_SIZE];
        assert(request@ =~= seq![MAX_TRANSFER_SIZE]);
        let path = EPath::instance(CLASS_ID, self.instance_id);
        let reply = match self.router.send_request(session, ServiceCode(ServiceCode::INITIATE_UPLOAD), &path, request.as_slice()) {
            Ok(r) => r,
            Err(e) => return Err(e),
        };
        let ghost g = reply;
        let r = self.apply_initiate(reply.general_status, reply.data.as_slice());
        proof {
            if r is Ok {
                assert(answered(session, old(self)@.router, ServiceCode(ServiceCode::INITIATE_UPLOAD), file_path(old(self)@.instance_id), seq![MAX_TRANSFER_SIZE], Seq::<ItemView>::empty(), g));
            }
        }
        r
    }

    /// Ends an upload, returning to the loaded state with its outcome.
    fn finish(&mut self, status: GeneralStatusCode, check_size: bool)
        ensures
            final(self)@ == finished(old(self)@, status, check_size),
    {
        let mut state = State::Loaded;
        std::mem::swap(&mut state, &mut self.state);
        match state {
            State::UploadInProgress { file_size, content, .. } => {
                if check_size && content.len() as u64 != file_size as u64 {
                    self.outcome = Some((GeneralStatusCode(GeneralStatusCode::INVALID_PARAMETER), Vec::new()));
                } else if status.0 == GeneralStatusCode::SUCCESS {
                    self.outcome = Some((status, content));
                } else {
                    self.outcome = Some((status, Vec::new()));
                }
            },
            other => {
                self.state = other;
            },
        }
    }

    /// Applies the reply to Upload Transfer during an upload (see
    /// [`after_transfer`]): true while more packets remain.
    pub fn apply_transfer(&mut self, status: GeneralStatusCode, data: &[u8]) -> (r: Result<bool>)
        ensures
            ({
                let (res, v) = after_transfer(old(self)@, status, data@);
                &&& final(self)@ == v
                &&& match res {
                    Ok(b) => r == Ok::<bool, Error>(b),
                    Err(f) => r matches Err(e) && e.is_fault(f),
                }
            }),
    {
        let (file_size, transfer_size, transfer_number) = match &self.state {
            State::UploadInProgress { file_size, transfer_size, transfer_number, .. } => (
                *file_size,
                *transfer_size,
                *transfer_number,
            ),
            _ => return Ok(false),
        };
        if status.0 != GeneralStatusCode::SUCCESS {
            self.finish(status, false);
            return Ok(false);
        }
        let mut buf = data;
        let received_number = match try_get_u8(&mut buf) {
            Ok(v) => v,
            Err(e) => return Err(e),
        };
        let packet_type = match try_get_u8(&mut buf) {
            Ok(v) => v,
            Err(e) => return Err(e),
        };
        assert(buf@ =~= data@.skip(2));
        if received_number != transfer_number {
            self.finish(GeneralStatusCode(GeneralStatusCode::INVALID_PARAMETER), false);
            return Ok(false);
        }
        if packet_type == TransferPacketType::FIRST || packet_type == TransferPacketType::MIDDLE {
            let chunk = match try_get_vec(&mut buf, transfer_size as usize) {
                Ok(v) => v,
                Err(e) => return Err(e),
            };
            assert(chunk@ =~= data@.subrange(2, 2 + transfer_size));
            let mut old_state = State::Loaded;
            std::mem::swap(&mut old_state, &mut self.state);
            match old_state {
                State::UploadInProgress { content, .. } => {
                    let mut content = content;
                    let mut chunk = chunk;
                    content.append(&mut chunk);
                    self.state = State::UploadInProgress {
                        file_size,
                        transfer_size,
                        transfer_number: transfer_number.wrapping_add(1),
                        content,
                    };
                },
                other => {
                    self.state = other;
                },
            }
            Ok(true)
        } else if packet_type == TransferPacketType::LAST || packet_type == TransferPacketType::FIRST_AND_LAST {
            // The last packet ends with a 16-bit checksum.
            let len = if buf.len() >= 2 { buf.len() - 2 } else { 0 };
            let chunk = match try_get_vec(&mut buf, len) {
                Ok(v) => v,
                Err(e) => return Err(e),
            };
            assert(chunk@ =~= data@.subrange(2, 2 + len));
            let mut old_state = State::Loaded;
            std::mem::swap(&mut old_state, &mut self.state);
            match old_state {
                State::UploadInProgress { content, .. } => {
                    let mut content = content;
                    let mut chunk = chunk;
                    content.append(&mut chunk);
                    self.state = State::UploadInProgress { file_size, transfer_size, transfer_number, content };
                },
                other => {
                    self.state = other;
                },
            }
            self.finish(GeneralStatusCode(GeneralStatusCode::SUCCESS), true);
            Ok(false)
        } else {
            self.finish(GeneralStatusCode(GeneralStatusCode::INVALID_REPLY_RECEIVED), false);
            let mut msg = String::from_str("unexpected transfer packet type ");
            msg.append(TransferPacketType(packet_type).to_string().as_str());
            Err(Error::InvalidPacket(msg))
        }
    }

    /// Requests the next upload packet (Upload Transfer with the expected
    /// transfer number) and applies the reply. Returns true while more
    /// packets remain; false at once when no upload is in progress.
    pub fn handle_transfers<S: Session + ?Sized>(&mut self, session: &S) -> (r: Result<bool>)
        ensures
            !(old(self)@.state is UploadInProgress) ==> r == Ok::<bool, Error>(false) && final(self)@ == old(self)@,
            final(self)@.instance_id == old(self)@.instance_id && final(self)@.router == old(self)@.router,
            r matches Err(e) ==> exchange_error(e),
            old(self)@.state is UploadInProgress ==> (r is Err && final(self)@ == old(self)@) || exists|
                resp: MessageRouterResponse,
            |
                #[trigger] answered(
                    session,
                    old(self)@.router,
                    ServiceCode(ServiceCode::UPLOAD_TRANSFER),
                    file_path(old(self)@.instance_id),
                    seq![old(self)@.state->transfer_number],
                    Seq::<ItemView>::empty(),
                    resp,
                ) && ({
                    let (res, v) = after_transfer(old(self)@, resp.general_status, resp.data@);
                    &&& final(self)@ == v
                    &&& match res {
                        Ok(b) => r == Ok::<bool, Error>(b),
                        Err(f) => r matches Err(e) && e.is_fault(f),
                    }
                }),
    {
        let number = match &self.state {
            State::UploadInProgress { transfer_number, .. } => *transfer_number,
            _ => return Ok(false),
        };
        let request: [u8; 1] = [number];
        assert(request@ =~= seq![number]);
        let path = EPath::instance(CLASS_ID, self.instance_id);
        let reply = match self.router.send_request(session, ServiceCode(ServiceCode::UPLOAD_TRANSFER), &path, request.as_slice()) {
            Ok(r) => r,
            Err(e) => return Err(e),
        };
        let ghost g = reply;
        let r = self.apply_transfer(reply.general_status, reply.data.as_slice());
        proof {
            assert(answered(session, old(self)@.router, ServiceCode(ServiceCode::UPLOAD_TRANSFER), file_path(old(self)@.instance_id), seq![old(self)@.state->transfer_number], Seq::<ItemView>::empty(), g));
        }
        r
    }

    /// Uploads the whole file, blocking until done: [`FileObject::begin_upload`],
    /// then [`FileObject::handle_transfers`] until it returns false (at most
    /// `u64::MAX` times). The file when the upload succeeds; a `Cip` error
    /// with the status it ended with otherwise; `Unsupported` when no file is
    /// loaded.
    pub fn upload<S: Session + ?Sized>(&mut self, session: &S) -> (r: Result<Vec<u8>>)
        ensures
            !(old(self)@.state is Loaded || old(self)@.state is UploadInProgress) ==> (r matches Err(e) && e is Unsupported)
                && final(self)@ == (FileObjectView { outcome: None, ..old(self)@ }),
            r matches Ok(d) ==> old(self)@.state is Loaded && final(self)@.outcome == Some(
                (GeneralStatusCode(GeneralStatusCode::SUCCESS), d@),
            ),
            r matches Ok(d) ==> exists|init: MessageRouterResponse, rs: Seq<MessageRouterResponse>|
                #![trigger answered(session, old(self)@.router, ServiceCode(ServiceCode::INITIATE_UPLOAD), file_path(old(self)@.instance_id), seq![MAX_TRANSFER_SIZE], Seq::<ItemView>::empty(), init), transfers_answered(session, upload_start(old(self)@, init)->0, rs)]
                answered(
                    session,
                    old(self)@.router,
                    ServiceCode(ServiceCode::INITIATE_UPLOAD),
                    file_path(old(self)@.instance_id),
                    seq![MAX_TRANSFER_SIZE],
                    Seq::<ItemView>::empty(),
                    init,
                ) && ({
                    let start = upload_start(old(self)@, init);
                    &&& start is Some
                    &&& transfers_answered(session, start->0, rs)
                    &&& after_transfers(start->0, rs) == final(self)@
                }),
            old(self)@.state is Loaded ==> match final(self)@.outcome {
                Some((st, d)) => upload_result(st, d, r),
                None => true,
            },
            r matches Err(e) ==> e is Unsupported || e is Cip || exchange_error(e),
            final(self)@.instance_id == old(self)@.instance_id,
            final(self)@.router == old(self)@.router,
    {
        self.outcome = None;
        let ghost reset = self@;
        assert(reset == FileObjectView { outcome: None, ..old(self)@ });
        let started = match self.state {
            State::Loaded => true,
            _ => false,
        };
        match self.begin_upload(session) {
            Ok(()) => {},
            Err(e) => return Err(e),
        }
        let ghost start = self@;
        let ghost init = choose|resp: MessageRouterResponse|
            #[trigger] answered(
                session,
                reset.router,
                ServiceCode(ServiceCode::INITIATE_UPLOAD),
                file_path(reset.instance_id),
                seq![MAX_TRANSFER_SIZE],
                Seq::<ItemView>::empty(),
                resp,
            ) && after_initiate(reset, resp.general_status, resp.data@) == Some(start);
        let ghost mut rs: Seq<MessageRouterResponse> = seq![];
        let mut budget: u64 = u64::MAX;
        loop
            invariant_except_break
                started && budget < u64::MAX ==> self@.state is UploadInProgress,
            invariant
                self@.instance_id == old(self)@.instance_id,
                self@.router == old(self)@.router,
                !(old(self)@.state is Loaded || old(self)@.state is UploadInProgress) ==> self@ == (FileObjectView {
                    outcome: None,
                    ..old(self)@
                }),
                started == (old(self)@.state is Loaded),
                reset == (FileObjectView { outcome: None, ..old(self)@ }),
                started ==> answered(
                    session,
                    reset.router,
                    ServiceCode(ServiceCode::INITIATE_UPLOAD),
                    file_path(reset.instance_id),
                    seq![MAX_TRANSFER_SIZE],
                    Seq::<ItemView>::empty(),
                    init,
                ) && after_initiate(reset, init.general_status, init.data@) == Some(start),
                started ==> self@ == after_transfers(start, rs) && transfers_answered(session, start, rs),
                started && self@.state is UploadInProgress ==> self@.outcome is None,
            decreases budget,
        {
            if budget == 0 {
                let mut msg = String::from_str("upload of file object ");
                push_dec(&mut msg, self.instance_id as u64);
                msg.append(" did not end");
                return Err(Error::Unsupported(msg));
            }
            budget = budget - 1;
            let ghost before = self@;
            match self.handle_transfers(session) {
                Ok(more) => {
                    proof {
                        if before.state is UploadInProgress {
                            let resp = choose|resp: MessageRouterResponse|
                                #[trigger] answered(
                                    session,
                                    before.router,
                                    ServiceCode(ServiceCode::UPLOAD_TRANSFER),
                                    file_path(before.instance_id),
                                    seq![before.state->transfer_number],
                                    Seq::<ItemView>::empty(),
                                    resp,
                                ) && ({
                                    let (res, v) = after_transfer(before, resp.general_status, resp.data@);
                                    &&& self@ == v
                                    &&& match res {
                                        Ok(b) => Ok::<bool, Error>(more) == Ok::<bool, Error>(b),
                                        Err(f) => false,
                                    }
                                });
                            assert(rs.push(resp).drop_last() =~= rs);
                            rs = rs.push(resp);
                        }
                    }
                    if !more {
                        break;
                    }
                },
                Err(e) => return Err(e),
            }
        }
        if started {
            match &self.outcome {
                Some((status, data)) => {
                    if status.0 == GeneralStatusCode::SUCCESS {
                        proof {
                            assert(answered(
                                session,
                                old(self)@.router,
                                ServiceCode(ServiceCode::INITIATE_UPLOAD),
                                file_path(old(self)@.instance_id),
                                seq![MAX_TRANSFER_SIZE],
                                Seq::<ItemView>::empty(),
                                init,
                            ));
                            assert(transfers_answered(
                                session,
                                upload_start(old(self)@, init)->0,
                                rs,
                            ));
                        }
                        return Ok(vstd::slice::slice_to_vec(data.as_slice()));
                    } else {
                        let mut context = String::from_str("upload of file object ");
                        push_dec(&mut context, self.instance_id as u64);
                        return Err(Error::Cip { context, status: *status, additional: Vec::new() });
                    }
                },
                None => {},
            }
        }
        let mut msg = String::from_str("file object ");
        push_dec(&mut msg, self.instance_id as u64);
        msg.append(" is ");
        msg.append(self.state().to_string().as_str());
        msg.append(" and cannot be uploaded");
        Err(Error::Unsupported(msg))
    }
}

} // verus!
