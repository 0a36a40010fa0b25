use vstd::prelude::*;

verus! {

/// A command: a request value together with the type its handling yields.
pub trait Command {
    type Output;
}

/// A handler for one command type. What handling promises is the handler's
/// own `post` relation between the command and the output; `handle` must
/// meet it.
pub trait Handler<C: Command> {
    /// What the handler's output means for the given command.
    spec fn post(&self, cmd: C, out: C::Output) -> bool;

    /// Handle the command.
    fn handle(&self, cmd: C) -> (out: C::Output)
        ensures
            self.post(cmd, out),
    ;
}

/// Hand the command to the handler: a single indirection, promising exactly
/// what the handler promises.
pub fn dispatch<C: Command, H: Handler<C>>(cmd: C, handler: H) -> (out: C::Output)
    ensures
        handler.post(cmd, out),
{
    handler.handle(cmd)
}

} // verus!
