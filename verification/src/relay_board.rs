//! Finding the relay board among the devices of a bus scan.

use vstd::prelude::*;

use crate::errors::Error;
use crate::errors::UsbError;
use crate::helper::Device;
use crate::helper::DeviceDescriptor;

verus! {

/// Vendor identifier of the CH341A bridge on the relay board.
pub const VENDOR_ID: u16 = 0x1a86;

/// Product identifier of the CH341A bridge on the relay board.
pub const PRODUCT_ID: u16 = 0x5512;

/// A relay board that a bus scan has found and nobody has opened yet.
#[derive(Debug, Clone, Copy, PartialEq, Eq, Structural)]
pub struct RelayBoard {
    /// The number of the bus the board is attached to.
    pub bus_number: u8,
    /// The number of the port the board is plugged into.
    pub port_number: u8,
    /// The address the bus assigned to the board.
    pub address: u8,
}

/// The first index at or after `from` whose board sits on `port`, or
/// `boards.len()` when there is none.
pub open spec fn first_on_port(boards: Seq<RelayBoard>, port: u8, from: int) -> int
    decreases boards.len() - from,
{
    if from < 0 || from >= boards.len() {
        boards.len() as int
    } else if boards[from].port_number == port {
        from
    } else {
        first_on_port(boards, port, from + 1)
    }
}

/// `first_on_port` finds the first board on `port` from `from` on.
pub proof fn lemma_first_on_port(boards: Seq<RelayBoard>, port: u8, from: int)
    requires
        0 <= from <= boards.len(),
    ensures
        ({
            let at = first_on_port(boards, port, from);
            &&& from <= at <= boards.len()
            &&& at < boards.len() ==> boards[at].port_number == port
            &&& forall|j: int| from <= j < at ==> (#[trigger] boards[j]).port_number != port
        }),
    decreases boards.len() - from,
{
    if from < boards.len() && boards[from].port_number != port {
        lemma_first_on_port(boards, port, from + 1);
    }
}

/// The board that a scan which found `boards`, in this order, resolves to.
///
/// A single board is taken whatever `port` says. Several boards need a port:
/// the first board on that port is taken.
pub open spec fn resolve(boards: Seq<RelayBoard>, port: Option<u8>) -> Result<RelayBoard, Error> {
    if boards.len() == 0 {
        Err(Error::NotFound)
    } else if boards.len() == 1 {
        Ok(boards[0])
    } else {
        match port {
            None => Err(Error::MultipleFound),
            Some(port) => {
                let at = first_on_port(boards, port, 0);
                if at < boards.len() {
                    Ok(boards[at])
                } else {
                    Err(Error::NotFound)
                }
            },
        }
    }
}

/// The relay boards among what was found of the devices of a scan, in order.
pub open spec fn boards_among(found: Seq<Result<Option<RelayBoard>, Error>>) -> Seq<RelayBoard>
    decreases found.len(),
{
    if found.len() == 0 {
        Seq::empty()
    } else {
        let before = boards_among(found.drop_last());
        match found.last() {
            Ok(Some(board)) => before.push(board),
            _ => before,
        }
    }
}

/// The error of the first device of a scan that could not be read, if any.
pub open spec fn first_failure(found: Seq<Result<Option<RelayBoard>, Error>>) -> Option<Error>
    decreases found.len(),
{
    if found.len() == 0 {
        None
    } else {
        match first_failure(found.drop_last()) {
            Some(err) => Some(err),
            None => match found.last() {
                Err(err) => Some(err),
                Ok(_) => None,
            },
        }
    }
}

/// The board that a scan resolves to, given what was found of each of its
/// devices in turn: the error of the first device that could not be read,
/// or else what the relay boards among the devices resolve to.
pub open spec fn settle(found: Seq<Result<Option<RelayBoard>, Error>>, port: Option<u8>) -> Result<
    RelayBoard,
    Error,
> {
    match first_failure(found) {
        Some(err) => Err(err),
        None => resolve(boards_among(found), port),
    }
}

/// Whether `ids` is what reading a descriptor with this outcome tells: the
/// error of the reading, or else a vendor and a product identifier that the
/// descriptor gives when it is asked for them.
pub open spec fn tells<T: DeviceDescriptor>(
    descriptor: Result<T, UsbError>,
    ids: Result<(u16, u16), UsbError>,
) -> bool {
    match descriptor {
        Err(err) => ids == Err::<(u16, u16), UsbError>(err),
        Ok(dd) => ids matches Ok((vendor_id, product_id)) && call_ensures(
            T::vendor_id,
            (&dd,),
            vendor_id,
        ) && call_ensures(T::product_id, (&dd,), product_id),
    }
}

/// Whether `device` may report this of itself: its bus, port and address
/// are answers that it gives when it is asked for them, and `ids` is what a
/// reading of its descriptor tells.
///
/// Nothing is assumed of a device: it may answer differently each time, and
/// this holds of every answer that it can give.
pub open spec fn reports<T: DeviceDescriptor, D: Device<T>>(
    device: &D,
    ids: Result<(u16, u16), UsbError>,
    bus_number: u8,
    port_number: u8,
    address: u8,
) -> bool {
    &&& call_ensures(D::bus_number, (device,), bus_number)
    &&& call_ensures(D::port_number, (device,), port_number)
    &&& call_ensures(D::address, (device,), address)
    &&& exists|descriptor: Result<T, UsbError>|
        call_ensures(D::device_descriptor, (device,), descriptor) && #[trigger] tells(
            descriptor,
            ids,
        )
}

impl RelayBoard {
    /// What a device with the given descriptor outcome and location is:
    /// a relay board, some other device, or unreadable.
    pub open spec fn classify(
        ids: Result<(u16, u16), UsbError>,
        bus_number: u8,
        port_number: u8,
        address: u8,
    ) -> Result<Option<RelayBoard>, Error> {
        match ids {
            Err(err) => Err(Error::Usb(err)),
            Ok((vendor_id, product_id)) => if vendor_id == VENDOR_ID && product_id == PRODUCT_ID {
                Ok(Some(RelayBoard { bus_number, port_number, address }))
            } else {
                Ok(None)
            },
        }
    }

    /// Decides from what was read off a device whether it is a relay board.
    ///
    /// `ids` is the vendor and product identifier of its descriptor, or the
    /// error that reading the descriptor gave.
    pub fn identify(
        ids: Result<(u16, u16), UsbError>,
        bus_number: u8,
        port_number: u8,
        address: u8,
    ) -> (found: Result<Option<RelayBoard>, Error>)
        ensures
            found == Self::classify(ids, bus_number, port_number, address),
    {
        match ids {
            Err(err) => Err(Error::Usb(err)),
            Ok((vendor_id, product_id)) => {
                if vendor_id != VENDOR_ID || product_id != PRODUCT_ID {
                    return Ok(None);
                }
                Ok(Some(RelayBoard { bus_number, port_number, address }))
            },
        }
    }

    /// Reads a device and decides whether it is a relay board.
    ///
    /// The answer is that of [`RelayBoard::identify`] on what the device
    /// reports of itself when it is asked, each thing once; the only error
    /// is that of reading its descriptor.
    pub fn from<T: DeviceDescriptor, D: Device<T>>(device: &D) -> (found: Result<
        Option<RelayBoard>,
        Error,
    >)
        ensures
            exists|ids: Result<(u16, u16), UsbError>, bus_number: u8, port_number: u8, address: u8|
                #![trigger Self::classify(ids, bus_number, port_number, address)]
                reports(device, ids, bus_number, port_number, address) && found
                    == Self::classify(ids, bus_number, port_number, address),
            found matches Err(err) ==> err is Usb,
    {
        let descriptor = device.device_descriptor();
        let ids = match descriptor {
            Err(err) => Err(err),
            Ok(dd) => Ok((dd.vendor_id(), dd.product_id())),
        };
        let bus_number: u8 = device.bus_number();
        let port_number: u8 = device.port_number();
        let address: u8 = device.address();
        proof {
            assert(tells(descriptor, ids));
            assert(reports(device, ids, bus_number, port_number, address));
        }
        Self::identify(ids, bus_number, port_number, address)
    }

    /// The number of the port the board is plugged into.
    pub fn get_port(&self) -> (port: u8)
        ensures
            port == self.port_number,
    {
        self.port_number
    }

    /// Resolves the boards of a scan to the one to drive.
    ///
    /// No board is `NotFound`. A single board is taken whatever `port` says.
    /// Several boards without a port are `MultipleFound`; with a port the
    /// first board on it is taken, and it is `NotFound` if none is on it.
    pub fn select(boards: &Vec<RelayBoard>, port: Option<u8>) -> (found: Result<RelayBoard, Error>)
        ensures
            found == resolve(boards@, port),
            boards.len() == 0 ==> found == Err::<RelayBoard, Error>(Error::NotFound),
            boards.len() == 1 ==> found == Ok::<RelayBoard, Error>(boards[0]),
            boards.len() > 1 && port is None ==> found == Err::<RelayBoard, Error>(
                Error::MultipleFound,
            ),
            boards.len() > 1 && port is Some ==> (found == Err::<RelayBoard, Error>(Error::NotFound)
                <==> forall|i: int|
                0 <= i < boards.len() ==> (#[trigger] boards[i]).port_number != port->0),
            boards.len() > 1 && port is Some ==> (found matches Ok(board) ==> exists|i: int|
                0 <= i < boards.len() && #[trigger] boards[i] == board && board.port_number
                    == port->0 && forall|j: int|
                    0 <= j < i ==> (#[trigger] boards[j]).port_number != port->0),
            found is Err ==> found == Err::<RelayBoard, Error>(Error::NotFound) || found == Err::<
                RelayBoard,
                Error,
            >(Error::MultipleFound),
    {
        proof {
            if let Some(wanted) = port {
                lemma_first_on_port(boards@, wanted, 0);
            }
        }
        if boards.len() == 0 {
            return Err(Error::NotFound);
        }
        if boards.len() == 1 {
            return Ok(boards[0]);
        }
        match port {
            None => Err(Error::MultipleFound),
            Some(wanted) => {
                let mut i: usize = 0;
                while i < boards.len()
                    invariant
                        port == Some(wanted),
                        1 < boards.len(),
                        i <= boards.len(),
                        first_on_port(boards@, wanted, 0) == first_on_port(
                            boards@,
                            wanted,
                            i as int,
                        ),
                    decreases boards.len() - i,
                {
                    if boards[i].get_port() == wanted {
                        proof {
                            lemma_first_on_port(boards@, wanted, 0);
                        }
                        return Ok(boards[i]);
                    }
                    i += 1;
                }
                Err(Error::NotFound)
            },
        }
    }
}

/// Resolves a scan to the board to drive, from what was found of each of
/// its devices in turn.
///
/// The first device that could not be read fails the scan with its error.
/// Otherwise no relay board is `NotFound`; a single one is taken whatever
/// `port` says; of several the first on `port` is taken, `NotFound` if none
/// is on it and `MultipleFound` if no port was given.
pub fn settle_scan(found: &Vec<Result<Option<RelayBoard>, Error>>, port: Option<u8>) -> (chosen:
    Result<RelayBoard, Error>)
    ensures
        chosen == settle(found@, port),
{
    let mut boards: Vec<RelayBoard> = Vec::new();
    let mut i: usize = 0;
    while i < found.len()
        invariant
            i <= found.len(),
            first_failure(found@.take(i as int)) is None,
            boards@ == boards_among(found@.take(i as int)),
        decreases found.len() - i,
    {
        assert(found@.take(i + 1).drop_last() =~= found@.take(i as int));
        match found[i] {
            Err(err) => {
                proof {
                    lemma_failure_stays(found@, i + 1);
                }
                return Err(err);
            },
            Ok(Some(rb)) => {
                boards.push(rb);
            },
            Ok(None) => {},
        }
        i += 1;
    }
    assert(found@.take(i as int) =~= found@);
    RelayBoard::select(&boards, port)
}

/// A failure among the first `n` of a scan is the first failure of the scan.
proof fn lemma_failure_stays(found: Seq<Result<Option<RelayBoard>, Error>>, n: int)
    requires
        0 <= n <= found.len(),
        first_failure(found.take(n)) is Some,
    ensures
        first_failure(found) == first_failure(found.take(n)),
    decreases found.len() - n,
{
    if n < found.len() {
        assert(found.take(n + 1).drop_last() =~= found.take(n));
        lemma_failure_stays(found, n + 1);
    } else {
        assert(found.take(n) =~= found);
    }
}

/// Finds the relay board to drive among the devices of a bus scan.
///
/// The devices are read in turn with [`RelayBoard::from`], up to the first
/// whose descriptor cannot be read. What was found of them is resolved by
/// [`settle_scan`], which says which board is chosen for each finding; the
/// devices themselves report what they please.
pub fn find_relay_board<T: DeviceDescriptor, D: Device<T>>(
    devices: &Vec<D>,
    port: Option<u8>,
) -> (chosen: Result<RelayBoard, Error>)
    ensures
        chosen matches Err(err) ==> err is Usb || err is NotFound || err is MultipleFound,
        devices.len() == 0 ==> chosen == Err::<RelayBoard, Error>(Error::NotFound),
        chosen == Err::<RelayBoard, Error>(Error::MultipleFound) ==> port is None && devices.len()
            > 1,
{
    let mut found: Vec<Result<Option<RelayBoard>, Error>> = Vec::new();
    let mut i: usize = 0;
    let mut failed = false;
    while i < devices.len() && !failed
        invariant
            i <= devices.len(),
            found.len() == i,
            forall|k: int|
                0 <= k < found.len() ==> (#[trigger] found[k] matches Err(err) ==> err is Usb),
        decreases devices.len() - i,
    {
        let rb = RelayBoard::from(&devices[i]);
        failed = rb.is_err();
        found.push(rb);
        i += 1;
    }
    proof {
        lemma_first_failure(found@);
        lemma_settle_errors(found@, port);
    }
    settle_scan(&found, port)
}

/// A scan fails with an error of one of its devices, or because no board
/// or more than one was found.
proof fn lemma_settle_errors(found: Seq<Result<Option<RelayBoard>, Error>>, port: Option<u8>)
    ensures
        settle(found, port) matches Err(err) ==> err is NotFound || err is MultipleFound || exists|
            k: int,
        |
            0 <= k < found.len() && #[trigger] found[k] == Err::<Option<RelayBoard>, Error>(err),
        found.len() == 0 ==> settle(found, port) == Err::<RelayBoard, Error>(Error::NotFound),
        first_failure(found) is None && settle(found, port) == Err::<RelayBoard, Error>(
            Error::MultipleFound,
        ) ==> port is None && found.len() > 1,
{
    lemma_first_failure(found);
    lemma_boards_among(found);
}

/// A scan holds no more relay boards than devices.
proof fn lemma_boards_among(found: Seq<Result<Option<RelayBoard>, Error>>)
    ensures
        boards_among(found).len() <= found.len(),
    decreases found.len(),
{
    if found.len() > 0 {
        lemma_boards_among(found.drop_last());
    }
}

/// The first failure of a scan is the error of one of its devices.
proof fn lemma_first_failure(found: Seq<Result<Option<RelayBoard>, Error>>)
    ensures
        first_failure(found) matches Some(err) ==> exists|k: int|
            0 <= k < found.len() && #[trigger] found[k] == Err::<Option<RelayBoard>, Error>(err),
    decreases found.len(),
{
    if found.len() > 0 {
        lemma_first_failure(found.drop_last());
        if let Some(err) = first_failure(found.drop_last()) {
            let k = choose|k: int|
                0 <= k < found.drop_last().len() && #[trigger] found.drop_last()[k] == Err::<
                    Option<RelayBoard>,
                    Error,
                >(err);
            assert(found[k] == found.drop_last()[k]);
        } else if let Err(err) = found.last() {
            assert(found[found.len() - 1] == Err::<Option<RelayBoard>, Error>(err));
        }
    }
}

} // verus!
