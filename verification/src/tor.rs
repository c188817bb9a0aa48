//! What the hidden service is started with.

use crate::args::{Args, BindTarget, BindTargetView};
use crate::errors::Error;
use crate::platform::Platform;
use crate::utils::{join, join_spec, path_to_string, path_to_string_spec};
use vstd::prelude::*;
use vstd::slice::slice_to_vec;
use vstd::string::StringSliceAdditionalSpecFns;

verus! {

/// The port under which the hidden service is reached.
pub const HIDDEN_SERVICE_PORT: u16 = 80;

/// The version of hidden service that is published.
pub const HIDDEN_SERVICE_VERSION: u8 = 3;

/// The port for SOCKS clients; 0 opens none.
pub const SOCKS_PORT: u16 = 0;

/// The settings of the hidden service.
#[derive(Clone, Debug, PartialEq, Eq)]
pub struct HiddenService {
    /// The directory in which the state is kept.
    pub data_dir: String,
    /// The port for SOCKS clients.
    pub socks_port: u16,
    /// The directory in which the keys of the service are kept.
    pub service_dir: String,
    /// The version of the service.
    pub version: u8,
    /// The port under which the service is reached.
    pub port: u16,
    /// Where what arrives at the port is sent on to.
    pub target: BindTarget,
}

/// A `HiddenService` with its texts as sequences of characters.
pub struct HiddenServiceView {
    pub data_dir: Seq<char>,
    pub socks_port: u16,
    pub service_dir: Seq<char>,
    pub version: u8,
    pub port: u16,
    pub target: BindTargetView,
}

impl View for HiddenService {
    type V = HiddenServiceView;

    open spec fn view(&self) -> HiddenServiceView {
        HiddenServiceView {
            data_dir: self.data_dir@,
            socks_port: self.socks_port,
            service_dir: self.service_dir@,
            version: self.version,
            port: self.port,
            target: self.target@,
        }
    }
}

/// The name of the directory of the service's keys, in the data directory.
pub open spec fn service_dir_name() -> Seq<u8> {
    "hs".spec_bytes()
}

/// The settings of the hidden service that keeps its state in `data_dir`: a
/// service of version 3 on port 80, with its keys in `hs` below `data_dir`,
/// that sends on to where the server listens, and no port for SOCKS clients.
/// There are none where the server has no place to listen, or where one of the
/// two directories has a path that is no text.
pub open spec fn hidden_service_spec(args: Args, data_dir: Seq<u8>, platform: Platform) -> Result<
    HiddenServiceView,
    Error,
> {
    match args.bind_addr_spec(platform) {
        Err(e) => Err(e),
        Ok(target) => match path_to_string_spec(join_spec(data_dir, service_dir_name())) {
            Err(e) => Err(e),
            Ok(service_dir) => match path_to_string_spec(data_dir) {
                Err(e) => Err(e),
                Ok(dir) => Ok(
                    HiddenServiceView {
                        data_dir: dir,
                        socks_port: SOCKS_PORT,
                        service_dir,
                        version: HIDDEN_SERVICE_VERSION,
                        port: HIDDEN_SERVICE_PORT,
                        target,
                    },
                ),
            },
        },
    }
}

/// Decides the settings that the hidden service is started with.
pub fn hidden_service(args: &Args, data_dir: &[u8], platform: Platform) -> (r: Result<
    HiddenService,
    Error,
>)
    ensures
        match r {
            Ok(service) => hidden_service_spec(*args, data_dir@, platform) == Ok::<
                HiddenServiceView,
                Error,
            >(service@),
            Err(e) => hidden_service_spec(*args, data_dir@, platform) == Err::<
                HiddenServiceView,
                Error,
            >(e),
        },
{
    let target = match args.bind_addr(platform) {
        Ok(target) => target,
        Err(e) => {
            return Err(e);
        },
    };
    let service_dir = match path_to_string(join(data_dir, "hs".as_bytes())) {
        Ok(text) => text,
        Err(e) => {
            return Err(e);
        },
    };
    let dir = match path_to_string(slice_to_vec(data_dir)) {
        Ok(text) => text,
        Err(e) => {
            return Err(e);
        },
    };
    Ok(
        HiddenService {
            data_dir: dir,
            socks_port: SOCKS_PORT,
            service_dir,
            version: HIDDEN_SERVICE_VERSION,
            port: HIDDEN_SERVICE_PORT,
            target,
        },
    )
}

} // verus!
