//! A fixed-size pool of transport connections, handed out round-robin.
//!
//! The pool owns `pool_size` connection slots, identified by index.  The
//! transport layer that constructs the pool maps each slot to one
//! established channel; this module verifies the selection policy alone:
//! slots are handed out in rotation, so consecutive requests spread evenly
//! over the pool.

use vstd::prelude::*;

verus! {

/// Construction failure of the connection pool.
#[derive(Clone, Copy, Debug, PartialEq, Eq, Structural)]
pub enum ConnectionError {
    /// A pool must hold at least one connection.
    EmptyPool,
}

/// A fixed set of connection slots with a round-robin cursor.
#[derive(Debug)]
pub struct ConnectionManager {
    pool_size: usize,
    cursor: usize,
}

impl ConnectionManager {
    /// Number of connection slots the pool was built with.
    pub closed spec fn spec_num(self) -> usize {
        self.pool_size
    }

    /// The slot the next `conn` call will hand out.
    pub closed spec fn spec_cursor(self) -> usize {
        self.cursor
    }

    /// The pool holds at least one slot and the cursor points at one.
    pub open spec fn wf(self) -> bool {
        &&& self.spec_num() >= 1
        &&& self.spec_cursor() < self.spec_num()
    }

    /// Builds a pool of `pool_size` slots, starting the rotation at slot 0.
    /// Construction fails fast on an empty pool; no partial pool is
    /// returned.
    pub fn new(pool_size: usize) -> (r: Result<ConnectionManager, ConnectionError>)
        ensures
            pool_size >= 1 ==> (r matches Ok(m)
                && m.spec_num() == pool_size
                && m.spec_cursor() == 0
                && m.wf()),
            pool_size == 0 ==> (r matches Err(e) && e == ConnectionError::EmptyPool),
    {
        if pool_size == 0 {
            Err(ConnectionError::EmptyPool)
        } else {
            Ok(ConnectionManager { pool_size, cursor: 0 })
        }
    }

    /// Number of slots in the pool.
    pub fn num(&self) -> (r: usize)
        ensures
            r == self.spec_num(),
    {
        self.pool_size
    }

    /// Hands out the next connection slot and advances the rotation by one,
    /// wrapping at the pool size.
    pub fn conn(&mut self) -> (r: usize)
        requires
            old(self).wf(),
        ensures
            r == old(self).spec_cursor(),
            r < old(self).spec_num(),
            final(self).spec_num() == old(self).spec_num(),
            final(self).spec_cursor() == (old(self).spec_cursor() + 1) % (old(self).spec_num() as int),
            final(self).wf(),
    {
        let picked = self.cursor;
        if self.cursor + 1 == self.pool_size {
            proof {
                vstd::arithmetic::div_mod::lemma_mod_self_0(self.pool_size as int);
            }
            self.cursor = 0;
        } else {
            proof {
                vstd::arithmetic::div_mod::lemma_small_mod(
                    (self.cursor + 1) as nat,
                    self.pool_size as nat,
                );
            }
            self.cursor = self.cursor + 1;
        }
        picked
    }
}

} // verus!
