//! Scenarios: a server, and the wallets that are built on it.

use crate::connector::DarksideConnector;
use vstd::prelude::*;

verus! {

/// How a wallet is built.
#[derive(Debug, PartialEq, Eq)]
pub struct ClientRequest {
    /// The seed phrase.
    pub seed: String,
    /// The height from which the wallet looks for its notes.
    pub birthday: u64,
    /// Whether a wallet that is already there is replaced.
    pub overwrite: bool,
}

/// Asks for a wallet that knows the whole chain and replaces what is already there.
pub fn client_request(seed: &str) -> (r: ClientRequest)
    ensures
        r.seed@ == seed@,
        r.birthday == 0,
        r.overwrite,
{
    ClientRequest { seed: seed.to_owned(), birthday: 0, overwrite: true }
}

/// A scenario under construction, over the types of the server's handler, of what builds
/// wallets, of the network and of the wallets.
#[derive(Debug)]
pub struct DarksideScenarioBuilder<H, B, N, L> {
    pub darkside_handler: H,
    pub darkside_connector: DarksideConnector,
    pub client_builder: B,
    pub regtest_network: N,
    /// The funded wallet.
    pub faucet: Option<L>,
    /// The other wallets, in the order in which they were built.
    pub lightclients: Vec<L>,
    /// The height of the chain.
    pub blockheight: u64,
}

/// Whether two scenarios have the same server, network and height.
pub open spec fn same_ground<H, B, N, L>(
    a: DarksideScenarioBuilder<H, B, N, L>,
    b: DarksideScenarioBuilder<H, B, N, L>,
) -> bool {
    &&& a.darkside_handler == b.darkside_handler
    &&& a.darkside_connector == b.darkside_connector
    &&& a.client_builder == b.client_builder
    &&& a.regtest_network == b.regtest_network
    &&& a.blockheight == b.blockheight
}

impl<H, B, N, L> DarksideScenarioBuilder<H, B, N, L> {
    /// A scenario with a server that has its first block, and no wallet.
    pub fn new(
        darkside_handler: H,
        darkside_connector: DarksideConnector,
        client_builder: B,
        regtest_network: N,
    ) -> (r: Self)
        ensures
            r.darkside_handler == darkside_handler,
            r.darkside_connector == darkside_connector,
            r.client_builder == client_builder,
            r.regtest_network == regtest_network,
            r.faucet is None,
            r.lightclients@ == Seq::<L>::empty(),
            r.blockheight == 1,
    {
        DarksideScenarioBuilder {
            darkside_handler,
            darkside_connector,
            client_builder,
            regtest_network,
            faucet: None,
            lightclients: Vec::new(),
            blockheight: 1,
        }
    }

    /// Asks for the funded wallet, with the given seed; `None` where it already exists.
    pub fn request_faucet(&self, seed: &str) -> (r: Option<ClientRequest>)
        ensures
            r is None <==> self.faucet is Some,
            r matches Some(request) ==> request.seed@ == seed@ && request.birthday == 0
                && request.overwrite,
    {
        match self.faucet {
            Some(_) => None,
            None => Some(client_request(seed)),
        }
    }

    /// The scenario with its funded wallet.
    pub fn build_faucet(self, faucet: L) -> (r: Self)
        requires
            self.faucet is None,
        ensures
            r.faucet == Some(faucet),
            r.lightclients == self.lightclients,
            same_ground(r, self),
    {
        DarksideScenarioBuilder { faucet: Some(faucet), ..self }
    }

    /// The scenario with one more wallet.
    pub fn build_client(self, lightclient: L) -> (r: Self)
        ensures
            r.faucet == self.faucet,
            r.lightclients@ == self.lightclients@.push(lightclient),
            same_ground(r, self),
    {
        let mut builder = self;
        builder.lightclients.push(lightclient);
        builder
    }
}

} // verus!
