use crate::names::{distinct, find_name, lemma_paired_push, lemma_paired_update, lemma_position, paired};
use crate::text::{lemma_texts_push, texts};
use vstd::prelude::*;

verus! {

/// The labels of a program, each with the index of the instruction it
/// stands before.
#[derive(Debug)]
pub struct Labels {
    names: Vec<String>,
    targets: Vec<usize>,
}

impl View for Labels {
    type V = Map<Seq<char>, usize>;

    closed spec fn view(&self) -> Map<Seq<char>, usize> {
        paired(texts(self.names@), self.targets@)
    }
}

impl Labels {
    /// Whether every label stands once and has its index.
    pub closed spec fn wf(&self) -> bool {
        &&& self.names.len() == self.targets.len()
        &&& distinct(texts(self.names@))
    }

    /// A table without labels.
    pub fn new() -> (out: Labels)
        ensures
            out.wf(),
            out@ == Map::<Seq<char>, usize>::empty(),
    {
        let out = Labels { names: Vec::new(), targets: Vec::new() };
        assert(out@ =~= Map::<Seq<char>, usize>::empty());
        out
    }

    /// The index that `name` stands for, if it was declared.
    pub fn get(&self, name: &str) -> (out: Option<usize>)
        requires
            self.wf(),
        ensures
            out == (if self@.contains_key(name@) {
                Some(self@[name@])
            } else {
                None::<usize>
            }),
    {
        match find_name(&self.names, name) {
            Some(i) => {
                proof {
                    lemma_position(texts(self.names@), self.targets@, i as int);
                }
                Some(self.targets[i])
            },
            None => None,
        }
    }

    /// Declares `name` for `target`. A second declaration of a name takes
    /// the place of the first.
    pub fn insert(&mut self, name: String, target: usize)
        requires
            old(self).wf(),
        ensures
            final(self).wf(),
            final(self)@ == old(self)@.insert(name@, target),
    {
        let ghost names = texts(self.names@);
        let ghost targets = self.targets@;
        match find_name(&self.names, name.as_str()) {
            Some(i) => {
                proof {
                    lemma_paired_update(names, targets, i as int, target);
                }
                self.targets[i] = target;
            },
            None => {
                proof {
                    lemma_paired_push(names, targets, name@, target);
                    lemma_texts_push(self.names@, name);
                }
                self.names.push(name);
                self.targets.push(target);
            },
        }
    }
}

} // verus!
