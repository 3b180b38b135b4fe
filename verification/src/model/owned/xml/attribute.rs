use crate::errors::Error;
use crate::model::AttributeTrait;
use vstd::prelude::*;

verus! {

/// Owned form of an attribute of a XML tag.
#[derive(Clone, Debug, Copy)]
pub struct AttributeBuf {
    namespace_index: u32,
    name_index: u32,
    class: u32,
    value: u32,
    data: u32,
}

impl AttributeBuf {
    pub closed spec fn spec_attribute_namespace(&self) -> u32 {
        self.namespace_index
    }

    pub closed spec fn spec_attribute_name(&self) -> u32 {
        self.name_index
    }

    pub closed spec fn spec_attribute_class(&self) -> u32 {
        self.class
    }

    pub closed spec fn spec_attribute_type(&self) -> u32 {
        self.value
    }

    pub closed spec fn spec_attribute_data(&self) -> u32 {
        self.data
    }

    pub fn new(namespace: u32, name: u32, class: u32, value: u32, data: u32) -> (r: Self)
        ensures
            r.spec_attribute_namespace() == namespace,
            r.spec_attribute_name() == name,
            r.spec_attribute_class() == class,
            r.spec_attribute_type() == value,
            r.spec_attribute_data() == data,
    {
        Self { namespace_index: namespace, name_index: name, class, value, data }
    }
}

impl AttributeTrait for AttributeBuf {
    open spec fn spec_namespace(&self) -> Result<u32, Error> {
        Ok(self.spec_attribute_namespace())
    }

    open spec fn spec_name(&self) -> Result<u32, Error> {
        Ok(self.spec_attribute_name())
    }

    open spec fn spec_class(&self) -> Result<u32, Error> {
        Ok(self.spec_attribute_class())
    }

    open spec fn spec_resource_value(&self) -> Result<u32, Error> {
        Ok(self.spec_attribute_type())
    }

    open spec fn spec_data(&self) -> Result<u32, Error> {
        Ok(self.spec_attribute_data())
    }

    fn namespace(&self) -> (r: Result<u32, Error>) {
        assert(self.spec_namespace() == Ok::<u32, Error>(self.namespace_index));
        Ok(self.namespace_index)
    }

    fn name(&self) -> (r: Result<u32, Error>) {
        assert(self.spec_name() == Ok::<u32, Error>(self.name_index));
        Ok(self.name_index)
    }

    fn class(&self) -> (r: Result<u32, Error>) {
        Ok(self.class)
    }

    fn resource_value(&self) -> (r: Result<u32, Error>) {
        Ok(self.value)
    }

    fn data(&self) -> (r: Result<u32, Error>) {
        Ok(self.data)
    }
}

} // verus!
