//! The gRPC mock registry: `"service.method"` to mock response.

use vstd::prelude::*;
use crate::table::StrTable;
use crate::models::GrpcMockResponse;

verus! {

/// The key a mock is stored under: the service and method names joined
/// with a dot, exactly as the admin call concatenates them.
pub open spec fn grpc_key(service: Seq<char>, method: Seq<char>) -> Seq<char> {
    service + seq!['.'] + method
}

/// The table of registered gRPC mocks. In the running server one such value
/// sits behind a lock.
pub struct GrpcRegistry {
    table: StrTable<GrpcMockResponse>,
}

fn make_grpc_key(service: &str, method: &str) -> (r: String)
    ensures
        r@ == grpc_key(service@, method@),
{
    let mut key = service.to_owned();
    key.append(".");
    key.append(method);
    proof {
        reveal_strlit(".");
        assert("."@ =~= seq!['.']);
        assert(key@ =~= grpc_key(service@, method@));
    }
    key
}

impl GrpcRegistry {
    /// The mapping from joined key to mock response.
    pub closed spec fn view(&self) -> Map<Seq<char>, GrpcMockResponse> {
        self.table@
    }

    pub closed spec fn wf(&self) -> bool {
        self.table.wf()
    }

    pub fn new() -> (r: Self)
        ensures
            r.wf(),
            r@ == Map::<Seq<char>, GrpcMockResponse>::empty(),
    {
        GrpcRegistry { table: StrTable::new() }
    }

    /// Stores `response` under `"service.method"`, overwriting any earlier mock.
    pub fn register_mock(&mut self, service: &str, method: &str, response: GrpcMockResponse)
        requires
            old(self).wf(),
        ensures
            final(self).wf(),
            final(self)@ == old(self)@.insert(grpc_key(service@, method@), response),
    {
        let key = make_grpc_key(service, method);
        self.table.insert(key, response);
    }

    /// The mock stored under `"service.method"`, if any. Lookup is exact on
    /// the joined key.
    pub fn get_mock(&self, service: &str, method: &str) -> (r: Option<&GrpcMockResponse>)
        requires
            self.wf(),
        ensures
            match r {
                Some(m) => self@.contains_key(grpc_key(service@, method@)) && self@[grpc_key(
                    service@,
                    method@,
                )] == *m,
                None => !self@.contains_key(grpc_key(service@, method@)),
            },
    {
        let key = make_grpc_key(service, method);
        self.table.get(key.as_str())
    }
}

} // verus!
