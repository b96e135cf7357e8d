use vstd::prelude::*;
use crate::builder::{ConnectionParameter, RfcConnectionBuilder};
use crate::error::{check_handle, check_rc, promoted, ErrorKind, RfcError, RfcErrorInfo, RFC_OK};
use crate::uc::{from_str, sap_uc_of};

verus! {

/// What releasing a connection whose handle is `h` hands back to be closed:
/// the handle itself while it is live, nothing once it is null.
pub open spec fn release_outcome(h: usize) -> Option<usize> {
    if h != 0 {
        Some(h)
    } else {
        None
    }
}

/// Exclusive owner of one native connection handle; a null handle means released.
#[derive(Debug)]
pub struct RfcConnection {
    handle: usize,
}

/// The handles of one remotely callable function, bound to the connection that
/// produced it, which it borrows and must not outlive.
#[derive(Debug)]
pub struct RfcFunction<'conn> {
    conn: &'conn RfcConnection,
    desc: usize,
    func: usize,
}

impl RfcConnection {
    /// The native handle; null once released.
    pub closed spec fn spec_handle(&self) -> usize {
        self.handle
    }

    /// An empty builder to collect connection parameters.
    pub fn builder() -> (r: RfcConnectionBuilder)
        ensures
            r.wf(),
            r.param_map() == Map::<Seq<char>, Seq<char>>::empty(),
    {
        RfcConnectionBuilder::new()
    }

    /// The parameter list that opens a connection to a named destination:
    /// the `dest` parameter alone.
    pub fn dest_params(name: &str) -> (r: Vec<ConnectionParameter>)
        ensures
            r@.len() == 1,
            r@[0].name@ == sap_uc_of("dest"@),
            r@[0].value@ == sap_uc_of(name@),
    {
        let mut r: Vec<ConnectionParameter> = Vec::new();
        r.push(ConnectionParameter { name: from_str("dest"), value: from_str(name) });
        r
    }

    /// Takes ownership of the handle that the native open call returned, or
    /// promotes the error-info it filled in when that handle is null.
    pub fn opened(handle: usize, info: RfcErrorInfo) -> (r: Result<RfcConnection, RfcError>)
        ensures
            r is Ok <==> handle != 0,
            r matches Ok(c) ==> c.spec_handle() == handle,
            handle == 0 ==> r == Err::<RfcConnection, RfcError>(
                promoted(ErrorKind::ConnectFailure, info),
            ),
    {
        match check_handle(handle, info, ErrorKind::ConnectFailure) {
            Ok(h) => Ok(RfcConnection { handle: h }),
            Err(e) => Err(e),
        }
    }

    /// The native handle, for the native calls made on this connection.
    pub fn handle(&self) -> (r: usize)
        ensures
            r == self.spec_handle(),
    {
        self.handle
    }

    /// Whether the connection still holds a live handle.
    pub fn is_open(&self) -> (r: bool)
        ensures
            r == (self.spec_handle() != 0),
    {
        self.handle != 0
    }

    /// The outcome of a liveness probe, from the status the native ping returned.
    pub fn ping_result(&self, rc: u32, info: RfcErrorInfo) -> (r: Result<(), RfcError>)
        ensures
            r is Ok <==> rc == RFC_OK,
            rc != RFC_OK ==> r == Err::<(), RfcError>(promoted(ErrorKind::PingFailure, info)),
    {
        check_rc(rc, info, ErrorKind::PingFailure)
    }

    /// The function descriptor that the native lookup by name returned, or the
    /// promoted error-info when it is null.
    pub fn function_desc(&self, desc: usize, info: RfcErrorInfo) -> (r: Result<usize, RfcError>)
        ensures
            desc != 0 ==> r == Ok::<usize, RfcError>(desc),
            desc == 0 ==> r == Err::<usize, RfcError>(promoted(ErrorKind::LookupFailure, info)),
    {
        check_handle(desc, info, ErrorKind::LookupFailure)
    }

    /// Binds a descriptor and the function instance created from it to this
    /// connection, or promotes the error-info when the instance is null.
    pub fn get_function<'conn>(&'conn self, desc: usize, func: usize, info: RfcErrorInfo) -> (r:
        Result<RfcFunction<'conn>, RfcError>)
        requires
            desc != 0,
        ensures
            r is Ok <==> func != 0,
            r matches Ok(f) ==> f.spec_conn() == self && f.spec_desc() == desc && f.spec_func()
                == func,
            func == 0 ==> r == Err::<RfcFunction<'conn>, RfcError>(
                promoted(ErrorKind::InstantiationFailure, info),
            ),
    {
        match check_handle(func, info, ErrorKind::InstantiationFailure) {
            Ok(h) => Ok(RfcFunction { conn: self, desc, func: h }),
            Err(e) => Err(e),
        }
    }

    /// Marks the connection released and hands back the handle to close, the
    /// first time only; later calls hand back nothing.
    pub fn release(&mut self) -> (r: Option<usize>)
        ensures
            r == release_outcome(old(self).spec_handle()),
            final(self).spec_handle() == 0,
    {
        if self.handle != 0 {
            let h = self.handle;
            self.handle = 0;
            Some(h)
        } else {
            None
        }
    }
}

impl<'conn> RfcFunction<'conn> {
    pub closed spec fn spec_conn(&self) -> &'conn RfcConnection {
        self.conn
    }

    pub closed spec fn spec_desc(&self) -> usize {
        self.desc
    }

    pub closed spec fn spec_func(&self) -> usize {
        self.func
    }

    /// The connection this function is bound to.
    pub fn connection(&self) -> (r: &'conn RfcConnection)
        ensures
            r == self.spec_conn(),
    {
        self.conn
    }

    /// The function descriptor handle.
    pub fn desc_handle(&self) -> (r: usize)
        ensures
            r == self.spec_desc(),
    {
        self.desc
    }

    /// The function instance handle.
    pub fn func_handle(&self) -> (r: usize)
        ensures
            r == self.spec_func(),
    {
        self.func
    }
}

/// Releasing a connection a second time closes nothing: only the first release
/// hands back the handle.
pub proof fn lemma_release_once(c: RfcConnection)
    ensures
        release_outcome(c.spec_handle()) is Some <==> c.spec_handle() != 0,
        release_outcome(0) is None,
{
}

} // verus!
