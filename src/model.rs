//! The pool description that the parser builds, and its mathematical model.
use vstd::prelude::*;

verus! {

/// Health of a pool or of a device, in the vocabulary of the listing.
#[derive(Clone, Copy, Debug, PartialEq, Eq, Structural)]
pub enum HealthState {
    Online,
    Degraded,
    Faulted,
    Offline,
    Unavail,
    Removed,
}

/// Parity level of a raidz group.
#[derive(Clone, Copy, Debug, PartialEq, Eq, Structural)]
pub enum RaidLevel {
    Z1,
    Z2,
    Z3,
}

/// The rule of the grammar at which a parse failed.
#[derive(Clone, Copy, Debug, PartialEq, Eq, Structural)]
pub enum Rule {
    PoolName,
    PoolId,
    State,
    Status,
    Action,
    See,
    Config,
    PoolLine,
    Vdevs,
    DiskLine,
}

/// Why a text could not be turned into a pool. Positions count characters from the start of
/// the text.
#[derive(Clone, Copy, Debug, PartialEq, Eq, Structural)]
pub enum ParseError {
    /// The text does not have the shape that the rule asks for.
    Syntax { rule: Rule, pos: usize },
    /// The text has the shape, but its value cannot be represented (an identifier too large
    /// for 64 bits, guidance text that says neither that the pool can nor that it cannot be
    /// imported).
    Value { rule: Rule, pos: usize },
}

/// Whether the tool reports the pool as importable, with its own sentence.
#[derive(Clone, Debug, PartialEq, Eq)]
pub enum Advisory {
    Importable { message: String },
    NotImportable { message: String },
}

/// One physical or virtual device.
#[derive(Clone, Debug, PartialEq, Eq)]
pub struct DiskLine {
    pub path: String,
    pub state: HealthState,
    pub note: Option<String>,
}

/// One top-level entry of the device tree.
#[derive(Clone, Debug, PartialEq, Eq)]
pub enum Vdev {
    Naked(DiskLine),
    Mirror(Vec<DiskLine>),
    RaidZ(RaidLevel, Vec<DiskLine>),
    Spare(DiskLine),
    Log(DiskLine),
    Cache(DiskLine),
}

/// One pool that the listing offers for import.
#[derive(Clone, Debug, PartialEq, Eq)]
pub struct Pool {
    pub name: String,
    pub id: u64,
    pub health: HealthState,
    pub advisory: Advisory,
    pub status_message: Option<String>,
    pub see_also: Option<String>,
    pub topology: Vec<Vdev>,
}

pub enum AdvisoryModel {
    Importable(Seq<char>),
    NotImportable(Seq<char>),
}

pub struct DiskModel {
    pub path: Seq<char>,
    pub state: HealthState,
    pub note: Option<Seq<char>>,
}

pub enum VdevModel {
    Naked(DiskModel),
    Mirror(Seq<DiskModel>),
    RaidZ(RaidLevel, Seq<DiskModel>),
    Spare(DiskModel),
    Log(DiskModel),
    Cache(DiskModel),
}

pub struct PoolModel {
    pub name: Seq<char>,
    pub id: u64,
    pub health: HealthState,
    pub advisory: AdvisoryModel,
    pub status_message: Option<Seq<char>>,
    pub see_also: Option<Seq<char>>,
    pub topology: Seq<VdevModel>,
}

pub open spec fn opt_view(o: Option<String>) -> Option<Seq<char>> {
    match o {
        Some(t) => Some(t@),
        None => None,
    }
}

pub open spec fn disks_view(v: Seq<DiskLine>) -> Seq<DiskModel> {
    v.map_values(|d: DiskLine| d@)
}

impl View for Advisory {
    type V = AdvisoryModel;

    open spec fn view(&self) -> AdvisoryModel {
        match self {
            Advisory::Importable { message } => AdvisoryModel::Importable(message@),
            Advisory::NotImportable { message } => AdvisoryModel::NotImportable(message@),
        }
    }
}

impl View for DiskLine {
    type V = DiskModel;

    open spec fn view(&self) -> DiskModel {
        DiskModel { path: self.path@, state: self.state, note: opt_view(self.note) }
    }
}

impl View for Vdev {
    type V = VdevModel;

    open spec fn view(&self) -> VdevModel {
        match self {
            Vdev::Naked(d) => VdevModel::Naked(d@),
            Vdev::Mirror(ds) => VdevModel::Mirror(disks_view(ds@)),
            Vdev::RaidZ(l, ds) => VdevModel::RaidZ(*l, disks_view(ds@)),
            Vdev::Spare(d) => VdevModel::Spare(d@),
            Vdev::Log(d) => VdevModel::Log(d@),
            Vdev::Cache(d) => VdevModel::Cache(d@),
        }
    }
}

pub open spec fn vdevs_view(v: Seq<Vdev>) -> Seq<VdevModel> {
    v.map_values(|d: Vdev| d@)
}

impl View for Pool {
    type V = PoolModel;

    open spec fn view(&self) -> PoolModel {
        PoolModel {
            name: self.name@,
            id: self.id,
            health: self.health,
            advisory: self.advisory@,
            status_message: opt_view(self.status_message),
            see_also: opt_view(self.see_also),
            topology: vdevs_view(self.topology@),
        }
    }
}

impl Pool {
    pub fn name(&self) -> (r: &String)
        ensures
            r@ == self.name@,
    {
        &self.name
    }

    pub fn id(&self) -> (r: u64)
        ensures
            r == self.id,
    {
        self.id
    }

    pub fn health(&self) -> (r: HealthState)
        ensures
            r == self.health,
    {
        self.health
    }
}

impl Advisory {
    /// Whether the tool says that the pool can be imported.
    pub fn is_importable(&self) -> (r: bool)
        ensures
            r == (self@ is Importable),
    {
        match self {
            Advisory::Importable { .. } => true,
            Advisory::NotImportable { .. } => false,
        }
    }
}

} // verus!
