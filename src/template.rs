use vstd::prelude::*;

verus! {

/// The program run when no command is given.
pub open spec fn default_command() -> Seq<char> {
    seq!['e', 'c', 'h', 'o']
}

/// The base command: a program and its leading arguments, to which each
/// batch is appended.
pub struct CommandTemplate {
    argv: Vec<String>,
}

impl View for CommandTemplate {
    type V = Seq<String>;

    closed spec fn view(&self) -> Seq<String> {
        self.argv@
    }
}

impl CommandTemplate {
    /// The template for `command`, or for `echo` alone when `command` is empty.
    pub fn new(command: Vec<String>) -> (r: CommandTemplate)
        ensures
            command@.len() > 0 ==> r@ == command@,
            command@.len() == 0 ==> r@.len() == 1 && r@[0]@ == default_command(),
    {
        if command.len() == 0 {
            let echo = String::from_str("echo");
            proof {
                reveal_strlit("echo");
            }
            assert(echo@ =~= default_command());
            CommandTemplate { argv: vec![echo] }
        } else {
            CommandTemplate { argv: command }
        }
    }

    /// The words of the base command.
    pub fn words(&self) -> (r: &Vec<String>)
        ensures
            r@ == self@,
    {
        &self.argv
    }

    /// The argument vector of one invocation: the base command followed by
    /// the batch.
    pub fn invocation(&self, batch: &Vec<String>) -> (r: Vec<String>)
        ensures
            r@ == self@ + batch@,
    {
        let mut argv: Vec<String> = Vec::new();
        let mut i: usize = 0;
        while i < self.argv.len()
            invariant
                i <= self@.len(),
                argv@ == self@.take(i as int),
            decreases self@.len() - i,
        {
            argv.push(self.argv[i].clone());
            assert(argv@ =~= self@.take(i + 1));
            i = i + 1;
        }
        let mut j: usize = 0;
        while j < batch.len()
            invariant
                j <= batch@.len(),
                argv@ == self@ + batch@.take(j as int),
            decreases batch@.len() - j,
        {
            argv.push(batch[j].clone());
            assert(argv@ =~= self@ + batch@.take(j + 1));
            j = j + 1;
        }
        assert(self@.take(self@.len() as int) =~= self@);
        assert(batch@.take(batch@.len() as int) =~= batch@);
        argv
    }
}

} // verus!
