//! The messages of the control-plane RPC surface, as plain values.
//!
//! The proxy authenticates itself with `Auth(AuthRequest)`, resolves the
//! database it fronts with `GetDataSource(Empty) -> DataSourceResponse`,
//! and subscribes to `Policy(Empty)`, a long-lived stream of
//! `InspektorPolicy` bytecode updates that each replace the active policy
//! snapshot wholesale. The schema-compiled wire plumbing stays outside
//! the library; these types carry the fields the logic reads and writes.

use vstd::prelude::*;

verus! {

/// Authenticates this proxy instance to the control plane. A failure of
/// the `Auth` call is fatal for the instance.
pub struct AuthRequest {
    pub password: String,
}

impl AuthRequest {
    /// An empty request.
    pub fn new() -> (m: AuthRequest)
        ensures
            m.password@ == Seq::<char>::empty(),
    {
        AuthRequest { password: String::new() }
    }

    /// The password field.
    pub fn get_password(&self) -> (r: &str)
        ensures
            r@ == self.password@,
    {
        self.password.as_str()
    }

    /// Resets the password field to empty.
    pub fn clear_password(&mut self)
        ensures
            final(self).password@ == Seq::<char>::empty(),
    {
        self.password = String::new();
    }

    /// Sets the password field, by value.
    pub fn set_password(&mut self, v: String)
        ensures
            final(self).password == v,
    {
        self.password = v;
    }

    /// Mutable access to the password field.
    pub fn mut_password(&mut self) -> (r: &mut String)
        ensures
            *r == old(self).password,
            final(self).password == *final(r),
    {
        &mut self.password
    }

    /// Takes the password field out, leaving it empty.
    pub fn take_password(&mut self) -> (r: String)
        ensures
            r == old(self).password,
            final(self).password@ == Seq::<char>::empty(),
    {
        let mut out = String::new();
        core::mem::swap(&mut self.password, &mut out);
        out
    }
}

/// The empty message: argument of the calls that carry no data.
pub struct Empty {}

impl Empty {
    /// The one value of the type.
    pub fn new() -> (m: Empty)
        ensures
            m == (Empty {  }),
    {
        Empty {  }
    }
}

/// Answer of `GetDataSource`: which downstream database identity this
/// proxy instance fronts.
pub struct DataSourceResponse {
    pub data_source_name: String,
}

impl DataSourceResponse {
    /// An empty response.
    pub fn new() -> (m: DataSourceResponse)
        ensures
            m.data_source_name@ == Seq::<char>::empty(),
    {
        DataSourceResponse { data_source_name: String::new() }
    }

    /// The data source name field.
    pub fn get_data_source_name(&self) -> (r: &str)
        ensures
            r@ == self.data_source_name@,
    {
        self.data_source_name.as_str()
    }

    /// Resets the data source name field to empty.
    pub fn clear_data_source_name(&mut self)
        ensures
            final(self).data_source_name@ == Seq::<char>::empty(),
    {
        self.data_source_name = String::new();
    }

    /// Sets the data source name field, by value.
    pub fn set_data_source_name(&mut self, v: String)
        ensures
            final(self).data_source_name == v,
    {
        self.data_source_name = v;
    }

    /// Mutable access to the data source name field.
    pub fn mut_data_source_name(&mut self) -> (r: &mut String)
        ensures
            *r == old(self).data_source_name,
            final(self).data_source_name == *final(r),
    {
        &mut self.data_source_name
    }

    /// Takes the data source name field out, leaving it empty.
    pub fn take_data_source_name(&mut self) -> (r: String)
        ensures
            r == old(self).data_source_name,
            final(self).data_source_name@ == Seq::<char>::empty(),
    {
        let mut out = String::new();
        core::mem::swap(&mut self.data_source_name, &mut out);
        out
    }
}

/// One message of the `Policy` stream: a unit of compiled policy bytecode
/// that fully replaces the active snapshot.
pub struct InspektorPolicy {
    pub wasm_byte_code: Vec<u8>,
}

impl InspektorPolicy {
    /// An empty update.
    pub fn new() -> (m: InspektorPolicy)
        ensures
            m.wasm_byte_code@ == Seq::<u8>::empty(),
    {
        InspektorPolicy { wasm_byte_code: Vec::new() }
    }

    /// The bytecode field.
    pub fn get_wasm_byte_code(&self) -> (r: &[u8])
        ensures
            r@ == self.wasm_byte_code@,
    {
        self.wasm_byte_code.as_slice()
    }

    /// Resets the bytecode field to empty.
    pub fn clear_wasm_byte_code(&mut self)
        ensures
            final(self).wasm_byte_code@ == Seq::<u8>::empty(),
    {
        self.wasm_byte_code = Vec::new();
    }

    /// Sets the bytecode field, by value.
    pub fn set_wasm_byte_code(&mut self, v: Vec<u8>)
        ensures
            final(self).wasm_byte_code == v,
    {
        self.wasm_byte_code = v;
    }

    /// Mutable access to the bytecode field.
    pub fn mut_wasm_byte_code(&mut self) -> (r: &mut Vec<u8>)
        ensures
            *r == old(self).wasm_byte_code,
            final(self).wasm_byte_code == *final(r),
    {
        &mut self.wasm_byte_code
    }

    /// Takes the bytecode field out, leaving it empty.
    pub fn take_wasm_byte_code(&mut self) -> (r: Vec<u8>)
        ensures
            r == old(self).wasm_byte_code,
            final(self).wasm_byte_code@ == Seq::<u8>::empty(),
    {
        let mut out = Vec::new();
        core::mem::swap(&mut self.wasm_byte_code, &mut out);
        out
    }
}

} // verus!
