//! Page tables that a device walks.
use crate::error::{to_result, Error, Result};
use core::marker::PhantomData;
use vstd::prelude::*;

pub mod prot;

verus! {

/// What a page table is asked for.
#[derive(Copy, Clone, Debug)]
pub struct Config {
    pub quirks: usize,
    pub pgsize_bitmap: usize,
    /// The number of bits of an input address.
    pub ias: usize,
    /// The number of bits of an output address.
    pub oas: usize,
    pub coherent_walk: bool,
}

/// A configuration in the widths that the page table code takes.
#[derive(Copy, Clone, Debug, PartialEq, Eq, Structural)]
pub struct RawConfig {
    pub quirks: u64,
    pub pgsize_bitmap: u64,
    pub ias: u32,
    pub oas: u32,
    pub coherent_walk: bool,
}

impl Config {
    /// The configuration as the page table code takes it, if the address widths fit.
    pub fn to_raw(&self) -> (r: Result<RawConfig>)
        ensures
            r == if self.ias <= u32::MAX && self.oas <= u32::MAX {
                Ok(
                    RawConfig {
                        quirks: self.quirks as u64,
                        pgsize_bitmap: self.pgsize_bitmap as u64,
                        ias: self.ias as u32,
                        oas: self.oas as u32,
                        coherent_walk: self.coherent_walk,
                    },
                )
            } else {
                Err(Error::EINVAL)
            },
    {
        if self.ias > u32::MAX as usize || self.oas > u32::MAX as usize {
            return Err(Error::EINVAL);
        }
        Ok(
            RawConfig {
                quirks: self.quirks as u64,
                pgsize_bitmap: self.pgsize_bitmap as u64,
                ias: self.ias as u32,
                oas: self.oas as u32,
                coherent_walk: self.coherent_walk,
            },
        )
    }
}

/// What the owner of a page table does when translations have to be forgotten.
pub trait FlushOps {
    type Data;

    fn tlb_flush_all(data: &Self::Data);

    fn tlb_flush_walk(data: &Self::Data, iova: usize, size: usize, granule: usize);

    fn tlb_add_page(data: &Self::Data, iova: usize, granule: usize);
}

/// What the page table code reports of a table in the format of the GPU: where the
/// table lies.
#[derive(Copy, Clone, Debug, PartialEq, Eq, Structural)]
pub struct AppleUATCfg {
    pub ttbr: u64,
}

/// What the page table code reports of a table, by its format.
#[derive(Copy, Clone, Debug, PartialEq, Eq, Structural)]
pub enum FormatCfg {
    Plain,
    AppleUAT(AppleUATCfg),
}

/// A page table whose format reports a `U`.
pub struct IOPagetable<T: FlushOps, U> {
    pub raw: RawConfig,
    pub format: FormatCfg,
    pub _p: PhantomData<T>,
    pub _q: PhantomData<U>,
}

/// What the page table code reports of the tables of some format.
pub trait GetConfig<T: FlushOps>: Sized {
    /// The table has that format.
    spec fn reported(iopt: &IOPagetable<T, Self>) -> bool;

    /// What is reported.
    spec fn report(iopt: &IOPagetable<T, Self>) -> Self;

    fn cfg(iopt: &IOPagetable<T, Self>) -> (r: Self)
        requires
            Self::reported(iopt),
        ensures
            r == Self::report(iopt),
    ;
}

impl<T: FlushOps> GetConfig<T> for () {
    open spec fn reported(iopt: &IOPagetable<T, ()>) -> bool {
        true
    }

    open spec fn report(iopt: &IOPagetable<T, ()>) -> () {
        ()
    }

    fn cfg(_iopt: &IOPagetable<T, ()>) -> (r: ()) {
        ()
    }
}

impl<T: FlushOps> GetConfig<T> for AppleUATCfg {
    open spec fn reported(iopt: &IOPagetable<T, AppleUATCfg>) -> bool {
        iopt.format is AppleUAT
    }

    open spec fn report(iopt: &IOPagetable<T, AppleUATCfg>) -> AppleUATCfg {
        iopt.format->AppleUAT_0
    }

    fn cfg(iopt: &IOPagetable<T, AppleUATCfg>) -> (r: AppleUATCfg) {
        match iopt.format {
            FormatCfg::AppleUAT(cfg) => cfg,
            FormatCfg::Plain => AppleUATCfg { ttbr: 0 },
        }
    }
}

impl<T: FlushOps, U: GetConfig<T>> IOPagetable<T, U> {
    /// A page table, if the configuration fits and the page table code made one:
    /// `made` is what it then reports.
    pub fn new_fmt(config: &Config, made: Option<FormatCfg>) -> (r: Result<IOPagetable<T, U>>)
        ensures
            match r {
                Ok(table) => {
                    &&& config.ias <= u32::MAX
                    &&& config.oas <= u32::MAX
                    &&& made == Some(table.format)
                    &&& table.raw == (RawConfig {
                        quirks: config.quirks as u64,
                        pgsize_bitmap: config.pgsize_bitmap as u64,
                        ias: config.ias as u32,
                        oas: config.oas as u32,
                        coherent_walk: config.coherent_walk,
                    })
                },
                Err(e) => {
                    &&& e == Error::EINVAL
                    &&& config.ias > u32::MAX || config.oas > u32::MAX || made is None
                },
            },
    {
        let raw = match config.to_raw() {
            Ok(raw) => raw,
            Err(e) => {
                return Err(e);
            },
        };
        match made {
            Some(format) => Ok(IOPagetable { raw, format, _p: PhantomData, _q: PhantomData }),
            None => Err(Error::EINVAL),
        }
    }

    /// What the page table code reports of this table.
    pub fn cfg(&self) -> (r: U)
        requires
            U::reported(self),
        ensures
            r == U::report(self),
    {
        U::cfg(self)
    }

    /// What a request to map pages came to: how much was mapped, unless the return code
    /// is an error.
    pub fn map_pages_result(code: i32, mapped: usize) -> (r: Result<usize>)
        ensures
            match r {
                Ok(n) => code >= 0 && n == mapped,
                Err(e) => code < 0 && e.wf() && e.errno() == code,
            },
    {
        match to_result(code) {
            Ok(()) => Ok(mapped),
            Err(e) => Err(e),
        }
    }
}

/// A configuration that fits is handed to the page table code as it is; address widths that
/// do not fit are refused.
pub proof fn law_configurations_are_handed_on(config: Config, r: Result<RawConfig>)
    requires
        call_ensures(Config::to_raw, (&config,), r),
    ensures
        r is Ok <==> config.ias < 0x1_0000_0000 && config.oas < 0x1_0000_0000,
        r is Err ==> r == Err::<RawConfig, Error>(Error::EINVAL),
        r matches Ok(raw) ==> {
            &&& raw.ias == config.ias
            &&& raw.oas == config.oas
            &&& raw.quirks == config.quirks
            &&& raw.pgsize_bitmap == config.pgsize_bitmap
            &&& raw.coherent_walk == config.coherent_walk
        },
{
}

/// A page table is there exactly if its configuration fits and the page table code made
/// one; it keeps both.
pub proof fn law_page_tables_are_made<T: FlushOps, U: GetConfig<T>>(
    config: Config,
    made: Option<FormatCfg>,
    raw: Result<RawConfig>,
    r: Result<IOPagetable<T, U>>,
)
    requires
        call_ensures(Config::to_raw, (&config,), raw),
        call_ensures(IOPagetable::<T, U>::new_fmt, (&config, made), r),
    ensures
        r is Ok <==> raw is Ok && made is Some,
        r matches Err(e) ==> e == Error::EINVAL,
        r matches Ok(table) ==> {
            &&& table.raw == raw->Ok_0
            &&& table.format == made->0
        },
{
}

/// What a request mapped counts only if its code is no error.
pub proof fn law_mapped_pages<T: FlushOps, U: GetConfig<T>>(
    code: i32,
    mapped: usize,
    r: Result<usize>,
)
    requires
        call_ensures(IOPagetable::<T, U>::map_pages_result, (code, mapped), r),
    ensures
        r is Ok <==> code >= 0,
        r matches Ok(n) ==> n == mapped,
        r matches Err(e) ==> e.errno() == code,
{
}

/// A table in the format of the GPU tells where it lies.
pub proof fn law_table_tells_where_it_lies<T: FlushOps>(
    table: IOPagetable<T, AppleUATCfg>,
    r: AppleUATCfg,
)
    requires
        table.format is AppleUAT,
        call_ensures(IOPagetable::<T, AppleUATCfg>::cfg, (&table,), r),
    ensures
        r.ttbr == table.format->AppleUAT_0.ttbr,
{
}

} // verus!
