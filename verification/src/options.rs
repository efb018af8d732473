//! The options of a "set" operation on each platform, and the extension traits that choose
//! them.
use vstd::prelude::*;

verus! {

/// Common trait for sealing platform extension traits.
pub trait Sealed {}

/// What a "set" operation does on Linux besides placing the data.
#[derive(Clone, Copy, Debug, PartialEq, Eq, Structural)]
pub struct LinuxSetOptions {
    /// Keep serving the data until another program replaces it.
    pub wait: bool,
}

impl LinuxSetOptions {
    /// Return once the data is placed.
    pub fn new() -> (o: LinuxSetOptions)
        ensures
            !o.wait,
    {
        LinuxSetOptions { wait: false }
    }

    /// Waits for the clipboard's contents to be replaced after setting them.
    pub fn wait(self) -> (o: LinuxSetOptions)
        ensures
            o.wait,
    {
        LinuxSetOptions { wait: true }
    }
}

/// What a "set" operation does on Windows besides placing the data.
#[derive(Clone, Copy, Debug, PartialEq, Eq, Structural)]
pub struct WindowsSetOptions {
    /// Keep the data away from any processing by other programs.
    pub exclude_from_monitoring: bool,
    /// Keep the data away from the cloud clipboard.
    pub exclude_from_cloud: bool,
    /// Keep the data away from the clipboard history.
    pub exclude_from_history: bool,
}

impl WindowsSetOptions {
    /// Nothing besides placing the data.
    pub fn new() -> (o: WindowsSetOptions)
        ensures
            !o.exclude_from_monitoring && !o.exclude_from_cloud && !o.exclude_from_history,
    {
        WindowsSetOptions {
            exclude_from_monitoring: false,
            exclude_from_cloud: false,
            exclude_from_history: false,
        }
    }
}

impl Sealed for WindowsSetOptions {}

/// Windows-specific extensions to the set options.
pub trait SetExtWindows: Sealed + Sized {
    /// Exclude the data which will be set on the clipboard from being processed
    /// at all, either in the local clipboard history or getting uploaded to the cloud.
    fn exclude_from_monitoring(self) -> Self;

    /// Excludes the data which will be set on the clipboard from being uploaded to
    /// the Windows 10/11 cloud clipboard.
    fn exclude_from_cloud(self) -> Self;

    /// Excludes the data which will be set on the clipboard from being added to
    /// the system's clipboard history list.
    fn exclude_from_history(self) -> Self;
}

impl SetExtWindows for WindowsSetOptions {
    fn exclude_from_monitoring(self) -> (o: WindowsSetOptions)
        ensures
            o == (WindowsSetOptions { exclude_from_monitoring: true, ..self }),
    {
        WindowsSetOptions { exclude_from_monitoring: true, ..self }
    }

    fn exclude_from_cloud(self) -> (o: WindowsSetOptions)
        ensures
            o == (WindowsSetOptions { exclude_from_cloud: true, ..self }),
    {
        WindowsSetOptions { exclude_from_cloud: true, ..self }
    }

    fn exclude_from_history(self) -> (o: WindowsSetOptions)
        ensures
            o == (WindowsSetOptions { exclude_from_history: true, ..self }),
    {
        WindowsSetOptions { exclude_from_history: true, ..self }
    }
}

/// What a "set" operation does on macOS besides placing the data.
#[derive(Clone, Copy, Debug, PartialEq, Eq, Structural)]
pub struct AppleSetOptions {
    /// Mark the data as concealed for clipboard history programs.
    pub exclude_from_history: bool,
}

impl AppleSetOptions {
    /// Nothing besides placing the data.
    pub fn new() -> (o: AppleSetOptions)
        ensures
            !o.exclude_from_history,
    {
        AppleSetOptions { exclude_from_history: false }
    }
}

impl Sealed for AppleSetOptions {}

/// Apple-specific extensions to the set options.
pub trait SetExtApple: Sealed + Sized {
    /// Excludes the data which will be set on the clipboard from being added to
    /// third party clipboard history software.
    fn exclude_from_history(self) -> Self;
}

impl SetExtApple for AppleSetOptions {
    fn exclude_from_history(self) -> (o: AppleSetOptions)
        ensures
            o.exclude_from_history,
    {
        AppleSetOptions { exclude_from_history: true }
    }
}

} // verus!
