//! Where the data of the model is kept.

use crate::error::LinearOpticalModelError;
use crate::optical_sensitivities::OpticalSensitivities;
use crate::rigid_body_motions::RigidBodyMotions;
use std::marker::PhantomData;
use vstd::prelude::*;
use vstd::string::*;

verus! {

/// The writing and the reading back of a value as one binary file.
pub trait Bin: Sized {
    /// Writes the value to the file at `path`, and hands it back.
    fn dump(self, path: &str) -> Result<Self, LinearOpticalModelError>;

    /// Reads the value from the file at `path`.
    fn load(path: &str) -> Result<Self, LinearOpticalModelError>;
}

/// The directory and the name of the file that holds a `T`.
pub struct Loader<T> {
    path: String,
    filename: String,
    phantom: PhantomData<T>,
}

/// The reading of a `T` from where its [`Loader`] points.
pub trait LoaderTrait<T> {
    /// Reads the value from the file that the loader points to.
    fn load(self) -> Result<T, LinearOpticalModelError>;
}

impl<T> Loader<T> {
    /// The directory of the file.
    pub closed spec fn spec_path(self) -> Seq<char> {
        self.path@
    }

    /// The name of the file.
    pub closed spec fn spec_filename(self) -> Seq<char> {
        self.filename@
    }

    /// The loader of the file `filename` in the directory `path`.
    pub fn new(path: &str, filename: &str) -> (loader: Self)
        ensures
            loader.spec_path() == path@,
            loader.spec_filename() == filename@,
    {
        Loader { path: String::from_str(path), filename: String::from_str(filename), phantom: PhantomData }
    }

    /// Set the loading path
    pub fn path(self, path: &str) -> (loader: Self)
        ensures
            loader.spec_path() == path@,
            loader.spec_filename() == self.spec_filename(),
    {
        Loader { path: String::from_str(path), filename: self.filename, phantom: PhantomData }
    }

    /// Set the loaded file name
    pub fn filename(self, filename: &str) -> (loader: Self)
        ensures
            loader.spec_path() == self.spec_path(),
            loader.spec_filename() == filename@,
    {
        Loader { path: self.path, filename: String::from_str(filename), phantom: PhantomData }
    }

    /// The directory of the file.
    pub fn directory(&self) -> (path: &str)
        ensures
            path@ == self.spec_path(),
    {
        self.path.as_str()
    }

    /// The name of the file.
    pub fn file(&self) -> (filename: &str)
        ensures
            filename@ == self.spec_filename(),
    {
        self.filename.as_str()
    }
}

impl<S> Loader<OpticalSensitivities<S>> {
    /// The loader of the sensitivities: the file `optical_sensitivities.rs.bin`
    /// in the directory `root` or, where none is given, in the current one.
    pub fn in_directory(root: Option<&str>) -> (loader: Self)
        ensures
            loader.spec_path() == match root {
                Some(path) => path@,
                None => "."@,
            },
            loader.spec_filename() == "optical_sensitivities.rs.bin"@,
    {
        let path = match root {
            Some(path) => path,
            None => ".",
        };
        Loader::new(path, "optical_sensitivities.rs.bin")
    }
}

impl<S> Default for Loader<RigidBodyMotions<S>> {
    /// The loader of the rigid body motions: the file `data.parquet` in the
    /// current directory.
    fn default() -> (loader: Self)
        ensures
            loader.spec_path() == "."@,
            loader.spec_filename() == "data.parquet"@,
    {
        Loader::new(".", "data.parquet")
    }
}

} // verus!
