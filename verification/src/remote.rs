//! Wire-format records of the small remote upload-and-run tool: a file to
//! write on the receiving side, and a program to start there. The HTTP
//! plumbing that carries them lives outside the library.

use vstd::prelude::*;

verus! {

/// A file to store on the receiving side, by name, with its raw bytes.
#[derive(Debug)]
pub struct FileUploadRequest {
    pub name: String,
    pub bytes: Vec<u8>,
}

/// A program to start on the receiving side, with its arguments.
#[derive(Debug)]
pub struct ExecuteRequest {
    pub name: String,
    pub arguments: Vec<String>,
}

impl FileUploadRequest {
    /// Pack a name and contents into an upload record.
    pub fn new(name: String, bytes: Vec<u8>) -> (r: FileUploadRequest)
        ensures
            r.name == name,
            r.bytes == bytes,
    {
        FileUploadRequest { name, bytes }
    }
}

impl ExecuteRequest {
    /// Pack a program name and arguments into an execute record.
    pub fn new(name: String, arguments: Vec<String>) -> (r: ExecuteRequest)
        ensures
            r.name == name,
            r.arguments == arguments,
    {
        ExecuteRequest { name, arguments }
    }
}

} // verus!
